//! The persistence-store models: the per-session progress store keyed by
//! url, the shared history store keyed by a generated id, and the shared
//! scrape cache keyed by (session key, url). Writes are keyed upserts; reads
//! hand rows back newest-first.

use vstd::prelude::*;

use crate::model::DownloadRecord;
use crate::strutil::str_eq;
use crate::table::{sorted_desc, Table, TableRow};

verus! {

use vstd::multiset::Multiset;

/// Copies an optional string.
pub fn clone_opt_string(o: &Option<String>) -> (r: Option<String>)
    ensures
        r == *o,
{
    match o {
        Some(s) => Some(s.clone()),
        None => None,
    }
}

/// One live-progress record, keyed by url within its per-session store.
pub struct ProgressRow {
    pub url: String,
    pub filename: String,
    pub progress_permille: u64,
    pub downloaded: u64,
    pub total: Option<u64>,
    pub speed_bps: u64,
    pub eta_secs: Option<u64>,
    pub status: String,
    pub updated_at: i64,
}

impl TableRow for ProgressRow {
    type Key = Seq<char>;

    open spec fn key(&self) -> Seq<char> {
        self.url@
    }

    open spec fn stamp(&self) -> int {
        self.updated_at as int
    }

    fn key_matches(&self, other: &Self) -> (r: bool) {
        str_eq(self.url.as_str(), other.url.as_str())
    }

    fn stamp_ge(&self, other: &Self) -> (r: bool) {
        self.updated_at >= other.updated_at
    }

    fn duplicate(&self) -> (r: Self) {
        ProgressRow {
            url: self.url.clone(),
            filename: self.filename.clone(),
            progress_permille: self.progress_permille,
            downloaded: self.downloaded,
            total: self.total,
            speed_bps: self.speed_bps,
            eta_secs: self.eta_secs,
            status: self.status.clone(),
            updated_at: self.updated_at,
        }
    }
}

/// A per-session progress store: exactly one record per url.
pub struct SessionDb {
    path: String,
    table: Table<ProgressRow>,
}

impl SessionDb {
    pub closed spec fn wf(&self) -> bool {
        self.table.wf()
    }

    /// The path the store was opened at.
    pub closed spec fn store_path(&self) -> Seq<char> {
        self.path@
    }

    /// The records held, keyed by url.
    pub closed spec fn progress(&self) -> Map<Seq<char>, ProgressRow> {
        self.table@
    }

    /// The records held, as a multiset.
    pub closed spec fn rows_mset(&self) -> Multiset<ProgressRow> {
        self.table.row_mset()
    }

    /// Opens the store at a path. A never-written store holds no records.
    pub fn open(path: String) -> (r: Self)
        ensures
            r.wf(),
            r.store_path() == path@,
            r.progress() == Map::<Seq<char>, ProgressRow>::empty(),
    {
        SessionDb { path, table: Table::new() }
    }

    /// Writes a progress record, replacing any earlier record of the same
    /// url; every other url is untouched.
    pub fn upsert_progress(
        &mut self,
        url: &str,
        filename: &str,
        progress_permille: u64,
        downloaded: u64,
        total: Option<u64>,
        speed_bps: u64,
        eta_secs: Option<u64>,
        status: &str,
        now: i64,
    )
        requires
            old(self).wf(),
        ensures
            final(self).wf(),
            final(self).store_path() == old(self).store_path(),
            final(self).progress() == old(self).progress().insert(
                url@,
                final(self).progress()[url@],
            ),
            ({
                let row = final(self).progress()[url@];
                row.url@ == url@ && row.filename@ == filename@ && row.progress_permille
                    == progress_permille && row.downloaded == downloaded && row.total == total
                    && row.speed_bps == speed_bps && row.eta_secs == eta_secs && row.status@
                    == status@ && row.updated_at == now
            }),
    {
        let row = ProgressRow {
            url: url.to_owned(),
            filename: filename.to_owned(),
            progress_permille,
            downloaded,
            total,
            speed_bps,
            eta_secs,
            status: status.to_owned(),
            updated_at: now,
        };
        self.table.upsert(row);
    }

    /// How many urls the store holds a record for.
    pub fn len(&self) -> (n: usize)
        requires
            self.wf(),
        ensures
            n == self.progress().dom().len(),
    {
        self.table.len()
    }

    /// All records, newest-first by their update stamps.
    pub fn read_all(&self) -> (r: Vec<ProgressRow>)
        ensures
            r@.to_multiset() == self.rows_mset(),
            sorted_desc(r@),
    {
        self.table.snapshot_sorted()
    }

    /// Law: the store holds a record exactly when the record stands under
    /// its own url, so a record read back is the record written.
    pub proof fn lemma_content(&self, row: ProgressRow)
        requires
            self.wf(),
        ensures
            self.rows_mset().contains(row) <==> (self.progress().dom().contains(row.url@)
                && self.progress()[row.url@] == row),
    {
        self.table.lemma_content(row);
    }
}

/// Law: a written progress record, read back under its url, preserves its
/// url, filename and status.
pub proof fn lemma_progress_round_trip(m: Map<Seq<char>, ProgressRow>, row: ProgressRow)
    ensures
        m.insert(row.url@, row).dom().contains(row.url@),
        m.insert(row.url@, row)[row.url@].url@ == row.url@,
        m.insert(row.url@, row)[row.url@].filename == row.filename,
        m.insert(row.url@, row)[row.url@].status == row.status,
{
}

impl TableRow for DownloadRecord {
    type Key = Seq<char>;

    open spec fn key(&self) -> Seq<char> {
        self.id@
    }

    open spec fn stamp(&self) -> int {
        self.created_at as int
    }

    fn key_matches(&self, other: &Self) -> (r: bool) {
        str_eq(self.id.as_str(), other.id.as_str())
    }

    fn stamp_ge(&self, other: &Self) -> (r: bool) {
        self.created_at >= other.created_at
    }

    fn duplicate(&self) -> (r: Self) {
        DownloadRecord {
            id: self.id.clone(),
            session_id: self.session_id.clone(),
            url: self.url.clone(),
            filename: self.filename.clone(),
            dir: self.dir.clone(),
            size: self.size,
            status: self.status.clone(),
            file_type: clone_opt_string(&self.file_type),
            script_name: clone_opt_string(&self.script_name),
            source_url: clone_opt_string(&self.source_url),
            created_at: self.created_at,
        }
    }
}

/// The shared history store: one record per generated id. Since ids are
/// fresh, insert-or-replace behaves as append-only.
pub struct HistoryStore {
    path: String,
    table: Table<DownloadRecord>,
}

impl HistoryStore {
    pub closed spec fn wf(&self) -> bool {
        self.table.wf()
    }

    /// The path the store was opened at.
    pub closed spec fn store_path(&self) -> Seq<char> {
        self.path@
    }

    /// The records held, keyed by id.
    pub closed spec fn records(&self) -> Map<Seq<char>, DownloadRecord> {
        self.table@
    }

    /// The records held, as a multiset.
    pub closed spec fn rows_mset(&self) -> Multiset<DownloadRecord> {
        self.table.row_mset()
    }

    /// Opens the store at a path. A never-written store holds no records.
    pub fn open(path: String) -> (r: Self)
        ensures
            r.wf(),
            r.store_path() == path@,
            r.records() == Map::<Seq<char>, DownloadRecord>::empty(),
    {
        HistoryStore { path, table: Table::new() }
    }

    /// Stores the record under its id, replacing any earlier record of that
    /// id rather than duplicating it.
    pub fn insert_or_replace(&mut self, rec: DownloadRecord)
        requires
            old(self).wf(),
        ensures
            final(self).wf(),
            final(self).store_path() == old(self).store_path(),
            final(self).records() == old(self).records().insert(rec.id@, rec),
    {
        self.table.upsert(rec);
    }

    /// How many ids the store holds a record for.
    pub fn len(&self) -> (n: usize)
        requires
            self.wf(),
        ensures
            n == self.records().dom().len(),
    {
        self.table.len()
    }

    /// All records, newest-first by creation stamp.
    pub fn read_history(&self) -> (r: Vec<DownloadRecord>)
        ensures
            r@.to_multiset() == self.rows_mset(),
            sorted_desc(r@),
    {
        self.table.snapshot_sorted()
    }

    /// Law: the store holds a record exactly when the record stands under
    /// its own id.
    pub proof fn lemma_content(&self, rec: DownloadRecord)
        requires
            self.wf(),
        ensures
            self.rows_mset().contains(rec) <==> (self.records().dom().contains(rec.id@)
                && self.records()[rec.id@] == rec),
    {
        self.table.lemma_content(rec);
    }

    /// Purges the store: with no cutoff every record goes; with a cutoff,
    /// exactly the records created before it go, and the kept records are
    /// unchanged.
    pub fn purge(&mut self, older_than: Option<i64>)
        requires
            old(self).wf(),
        ensures
            final(self).wf(),
            final(self).store_path() == old(self).store_path(),
            older_than is None ==> final(self).records() == Map::<
                Seq<char>,
                DownloadRecord,
            >::empty(),
            older_than matches Some(cutoff) ==> (forall|k: Seq<char>|
                #[trigger] final(self).records().dom().contains(k) <==> (old(
                    self,
                ).records().dom().contains(k) && old(self).records()[k].created_at >= cutoff)) && (
            forall|k: Seq<char>|
                #[trigger] final(self).records().dom().contains(k) ==> final(self).records()[k]
                    == old(self).records()[k]),
    {
        broadcast use vstd::seq_lib::group_to_multiset_ensures;

        match older_than {
            None => {
                self.table = Table::new();
            },
            Some(cutoff) => {
                let snap = self.table.snapshot_sorted();
                let ghost snapseq = snap@;
                let n = snap.len();
                let mut newt: Table<DownloadRecord> = Table::new();
                let mut j: usize = 0;
                while j < n
                    invariant
                        j <= n,
                        n == snapseq.len(),
                        snap@ == snapseq,
                        self == old(self),
                        old(self).wf(),
                        snapseq.to_multiset() == old(self).rows_mset(),
                        newt.wf(),
                        forall|k: Seq<char>|
                            #[trigger] newt@.dom().contains(k) ==> old(
                                self,
                            ).records().dom().contains(k) && old(self).records()[k].created_at
                                >= cutoff && newt@[k] == old(self).records()[k],
                        forall|a: int|
                            0 <= a < j && (#[trigger] snapseq[a]).created_at >= cutoff
                                ==> newt@.dom().contains(snapseq[a].id@),
                    decreases n - j,
                {
                    let rec = snap[j].duplicate();
                    proof {
                        broadcast use vstd::seq_lib::group_to_multiset_ensures;

                        assert(snapseq.contains(snapseq[j as int]));
                        assert(old(self).rows_mset().contains(snapseq[j as int]));
                        old(self).lemma_content(snapseq[j as int]);
                    }
                    if rec.created_at >= cutoff {
                        newt.upsert(rec);
                    }
                    j += 1;
                }
                proof {
                    assert forall|k: Seq<char>|
                        old(self).records().dom().contains(k) && old(
                            self,
                        ).records()[k].created_at >= cutoff implies newt@.dom().contains(k) by {
                        let v = old(self).records()[k];
                        assert(v.id@ == k) by {
                            old(self).lemma_id_keyed(k);
                        }
                        old(self).lemma_content(v);
                        assert(old(self).rows_mset().contains(v));
                        assert(snapseq.contains(v));
                        let a = choose|a: int| 0 <= a < snapseq.len() && snapseq[a] == v;
                        assert(newt@.dom().contains(snapseq[a].id@));
                    }
                }
                self.table = newt;
            },
        }
    }

    /// Law: every record stands under its own id.
    pub proof fn lemma_id_keyed(&self, k: Seq<char>)
        requires
            self.wf(),
            self.records().dom().contains(k),
        ensures
            self.records()[k].id@ == k,
    {
        self.table.lemma_keyed(k);
    }
}

/// Law: re-submitting a history record under the same id replaces the
/// earlier record rather than duplicating it — two writes under one id
/// leave what a single write of the second record leaves.
pub proof fn lemma_history_idempotent(
    m: Map<Seq<char>, DownloadRecord>,
    first: DownloadRecord,
    second: DownloadRecord,
)
    requires
        first.id@ == second.id@,
    ensures
        m.insert(first.id@, first).insert(second.id@, second) == m.insert(second.id@, second),
        m.insert(first.id@, first).insert(second.id@, second).dom() =~= m.dom().insert(
            second.id@,
        ),
{
    assert(m.insert(first.id@, first).insert(second.id@, second) =~= m.insert(
        second.id@,
        second,
    ));
}

/// One scrape-cache record, keyed by (session key, url) in the shared store.
pub struct ScrapeRow {
    pub session_key: String,
    pub url: String,
    pub filename: Option<String>,
    pub title: Option<String>,
    pub type_tag: Option<String>,
    pub meta: Option<String>,
    pub updated_at: i64,
}

impl TableRow for ScrapeRow {
    type Key = (Seq<char>, Seq<char>);

    open spec fn key(&self) -> (Seq<char>, Seq<char>) {
        (self.session_key@, self.url@)
    }

    open spec fn stamp(&self) -> int {
        self.updated_at as int
    }

    fn key_matches(&self, other: &Self) -> (r: bool) {
        str_eq(self.session_key.as_str(), other.session_key.as_str()) && str_eq(
            self.url.as_str(),
            other.url.as_str(),
        )
    }

    fn stamp_ge(&self, other: &Self) -> (r: bool) {
        self.updated_at >= other.updated_at
    }

    fn duplicate(&self) -> (r: Self) {
        ScrapeRow {
            session_key: self.session_key.clone(),
            url: self.url.clone(),
            filename: clone_opt_string(&self.filename),
            title: clone_opt_string(&self.title),
            type_tag: clone_opt_string(&self.type_tag),
            meta: clone_opt_string(&self.meta),
            updated_at: self.updated_at,
        }
    }
}

/// The shared scrape cache: one record per (session key, url).
pub struct ScrapeStore {
    path: String,
    table: Table<ScrapeRow>,
}

impl ScrapeStore {
    pub closed spec fn wf(&self) -> bool {
        self.table.wf()
    }

    /// The path the store was opened at.
    pub closed spec fn store_path(&self) -> Seq<char> {
        self.path@
    }

    /// The records held, keyed by (session key, url).
    pub closed spec fn records(&self) -> Map<(Seq<char>, Seq<char>), ScrapeRow> {
        self.table@
    }

    /// The records held, as a multiset.
    pub closed spec fn rows_mset(&self) -> Multiset<ScrapeRow> {
        self.table.row_mset()
    }

    /// Opens the store at a path. A never-written store holds no records.
    pub fn open(path: String) -> (r: Self)
        ensures
            r.wf(),
            r.store_path() == path@,
            r.records() == Map::<(Seq<char>, Seq<char>), ScrapeRow>::empty(),
    {
        ScrapeStore { path, table: Table::new() }
    }

    /// Stores the record under its key, replacing any earlier record there.
    pub fn upsert(&mut self, row: ScrapeRow)
        requires
            old(self).wf(),
        ensures
            final(self).wf(),
            final(self).store_path() == old(self).store_path(),
            final(self).records() == old(self).records().insert(
                (row.session_key@, row.url@),
                row,
            ),
    {
        self.table.upsert(row);
    }

    /// The records of one session key, newest-first: every row handed back
    /// is a stored row of that key, and every stored row of that key is
    /// handed back.
    pub fn read_scrape_items(&self, session_key: &str) -> (r: Vec<ScrapeRow>)
        requires
            self.wf(),
        ensures
            sorted_desc(r@),
            forall|i: int|
                0 <= i < r@.len() ==> (#[trigger] r@[i]).session_key@ == session_key@
                    && self.rows_mset().contains(r@[i]),
            forall|row: ScrapeRow|
                (#[trigger] self.rows_mset().contains(row)) && row.session_key@ == session_key@
                    ==> r@.contains(row),
    {
        broadcast use vstd::seq_lib::group_to_multiset_ensures;

        let all = self.table.snapshot_sorted();
        let ghost snap = all@;
        let mut out: Vec<ScrapeRow> = Vec::new();
        let n = all.len();
        let mut i: usize = 0;
        while i < n
            invariant
                i <= n,
                n == snap.len(),
                all@ == snap,
                sorted_desc(snap),
                snap.to_multiset() == self.rows_mset(),
                sorted_desc(out@),
                forall|a: int|
                    0 <= a < out@.len() ==> (#[trigger] out@[a]).session_key@ == session_key@
                        && snap.contains(out@[a]),
                forall|j: int|
                    0 <= j < i && (#[trigger] snap[j]).session_key@ == session_key@
                        ==> out@.contains(snap[j]),
                forall|a: int, j: int|
                    0 <= a < out@.len() && i <= j < snap.len() ==> (#[trigger] out@[a]).stamp()
                        >= (#[trigger] snap[j]).stamp(),
            decreases n - i,
        {
            let ghost out_pre = out@;
            let keep = str_eq(all[i].session_key.as_str(), session_key);
            if keep {
                let row = all[i].duplicate();
                out.push(row);
                proof {
                    assert(out@ == out_pre.push(snap[i as int]));
                    assert(out@[out@.len() - 1] == snap[i as int]);
                    assert(snap.contains(snap[i as int]));
                }
            }
            proof {
                assert forall|j: int|
                    0 <= j < i + 1 && (#[trigger] snap[j]).session_key@ == session_key@
                        implies out@.contains(snap[j]) by {
                    if j < i {
                        assert(out_pre.contains(snap[j]));
                        let a = choose|a: int| 0 <= a < out_pre.len() && out_pre[a] == snap[j];
                        assert(out@[a] == snap[j]);
                    } else {
                        assert(out@[out@.len() - 1] == snap[j]);
                    }
                }
            }
            i += 1;
        }
        proof {
            assert forall|row: ScrapeRow|
                (#[trigger] self.rows_mset().contains(row)) && row.session_key@ == session_key@
                    implies out@.contains(row) by {
                assert(snap.to_multiset().contains(row));
                assert(snap.contains(row));
                let j = choose|j: int| 0 <= j < snap.len() && snap[j] == row;
                assert(out@.contains(snap[j]));
            }
            assert forall|a: int| 0 <= a < out@.len() implies self.rows_mset().contains(
                #[trigger] out@[a],
            ) by {
                assert(snap.contains(out@[a]));
            }
        }
        out
    }
}

} // verus!
