//! The single-writer queues of the persistence layer: producers enqueue
//! writes without waiting; one dedicated worker per logical store drains its
//! queue in submission order, opening a store per path on demand and
//! reusing it afterwards.

use vstd::prelude::*;

use crate::assoc::AssocList;
use crate::model::DownloadRecord;
use crate::store::{HistoryStore, ProgressRow, ScrapeRow, ScrapeStore, SessionDb};

verus! {

/// One queued progress write.
pub struct ProgressJob {
    pub db_path: String,
    pub url: String,
    pub filename: String,
    pub progress_permille: u64,
    pub downloaded: u64,
    pub total: Option<u64>,
    pub speed_bps: u64,
    pub eta_secs: Option<u64>,
    pub status: String,
}

/// What one applied progress job leaves in its store's records: the job's
/// url now maps to a record with the job's fields and the worker's clock
/// reading, and every other url is untouched.
pub open spec fn progress_applied(
    pre: Map<Seq<char>, ProgressRow>,
    post: Map<Seq<char>, ProgressRow>,
    job: ProgressJob,
    now: int,
) -> bool {
    post == pre.insert(job.url@, post[job.url@]) && {
        let row = post[job.url@];
        row.url@ == job.url@ && row.filename@ == job.filename@ && row.progress_permille
            == job.progress_permille && row.downloaded == job.downloaded && row.total == job.total
            && row.speed_bps == job.speed_bps && row.eta_secs == job.eta_secs && row.status@
            == job.status@ && row.updated_at == now
    }
}

/// The records of the store at a path: empty when none was opened yet.
pub open spec fn spec_store_progress(stores: Map<Seq<char>, SessionDb>, path: Seq<char>) -> Map<
    Seq<char>,
    ProgressRow,
> {
    if stores.dom().contains(path) {
        stores[path].progress()
    } else {
        Map::empty()
    }
}

/// The dedicated progress writer: a job queue and the stores it has opened,
/// one per path.
pub struct ProgressWriter {
    queue: Vec<ProgressJob>,
    stores: AssocList<SessionDb>,
}

impl ProgressWriter {
    pub closed spec fn wf(&self) -> bool {
        self.stores.wf() && forall|p: Seq<char>|
            #[trigger] self.stores@.dom().contains(p) ==> self.stores@[p].wf()
                && self.stores@[p].store_path() == p
    }

    /// The jobs waiting, in submission order.
    pub closed spec fn jobs(&self) -> Seq<ProgressJob> {
        self.queue@
    }

    /// The stores opened so far, by path.
    pub closed spec fn stores_map(&self) -> Map<Seq<char>, SessionDb> {
        self.stores@
    }

    /// A writer with nothing queued and nothing opened.
    pub fn new() -> (r: Self)
        ensures
            r.wf(),
            r.jobs() == Seq::<ProgressJob>::empty(),
            r.stores_map() == Map::<Seq<char>, SessionDb>::empty(),
    {
        ProgressWriter { queue: Vec::new(), stores: AssocList::new() }
    }

    /// The store opened at a path, when one is.
    pub fn store_at(&self, path: &str) -> (r: Option<&SessionDb>)
        requires
            self.wf(),
        ensures
            match r {
                Some(db) => self.stores_map().dom().contains(path@)
                    && self.stores_map()[path@] == *db,
                None => !self.stores_map().dom().contains(path@),
            },
    {
        self.stores.get(path)
    }

    /// Fire-and-forget: appends the job and returns without waiting.
    pub fn enqueue(&mut self, job: ProgressJob)
        requires
            old(self).wf(),
        ensures
            final(self).wf(),
            final(self).jobs() == old(self).jobs().push(job),
            final(self).stores_map() == old(self).stores_map(),
    {
        self.queue.push(job);
    }

    /// The worker takes the oldest job, opens or reuses the store at its
    /// path, and applies the write there; nothing happens when the queue is
    /// empty.
    pub fn apply_next(&mut self, now: i64) -> (applied: bool)
        requires
            old(self).wf(),
        ensures
            final(self).wf(),
            old(self).jobs().len() == 0 ==> !applied && *final(self) == *old(self),
            old(self).jobs().len() > 0 ==> applied && final(self).jobs() == old(
                self,
            ).jobs().subrange(1, old(self).jobs().len() as int) && ({
                let job = old(self).jobs()[0];
                final(self).stores_map() == old(self).stores_map().insert(
                    job.db_path@,
                    final(self).stores_map()[job.db_path@],
                ) && final(self).stores_map().dom().contains(job.db_path@) && progress_applied(
                    spec_store_progress(old(self).stores_map(), job.db_path@),
                    final(self).stores_map()[job.db_path@].progress(),
                    job,
                    now as int,
                )
            }),
    {
        if self.queue.len() == 0 {
            return false;
        }
        let job = self.queue.remove(0);
        proof {
            assert(self.queue@ =~= old(self).jobs().subrange(1, old(self).jobs().len() as int));
        }
        let mut db = match self.stores.remove(job.db_path.as_str()) {
            Some(db) => db,
            None => SessionDb::open(job.db_path.clone()),
        };
        db.upsert_progress(
            job.url.as_str(),
            job.filename.as_str(),
            job.progress_permille,
            job.downloaded,
            job.total,
            job.speed_bps,
            job.eta_secs,
            job.status.as_str(),
            now,
        );
        self.stores.insert(job.db_path.clone(), db);
        proof {
            assert(self.stores@ =~= old(self).stores_map().insert(
                job.db_path@,
                self.stores@[job.db_path@],
            ));
        }
        true
    }
}

/// One queued history write: the record, bound for the store at the path.
pub struct HistoryJob {
    pub db_path: String,
    pub rec: DownloadRecord,
}

/// What one applied history job leaves: the record stands under its id, and
/// every other id is untouched.
pub open spec fn history_applied(
    pre: Map<Seq<char>, DownloadRecord>,
    post: Map<Seq<char>, DownloadRecord>,
    rec: DownloadRecord,
) -> bool {
    post == pre.insert(rec.id@, rec)
}

/// The records of the history store at a path: empty when none was opened.
pub open spec fn spec_store_history(stores: Map<Seq<char>, HistoryStore>, path: Seq<char>) -> Map<
    Seq<char>,
    DownloadRecord,
> {
    if stores.dom().contains(path) {
        stores[path].records()
    } else {
        Map::empty()
    }
}

/// The dedicated history writer.
pub struct HistoryWriter {
    queue: Vec<HistoryJob>,
    stores: AssocList<HistoryStore>,
}

impl HistoryWriter {
    pub closed spec fn wf(&self) -> bool {
        self.stores.wf() && forall|p: Seq<char>|
            #[trigger] self.stores@.dom().contains(p) ==> self.stores@[p].wf()
                && self.stores@[p].store_path() == p
    }

    /// The jobs waiting, in submission order.
    pub closed spec fn jobs(&self) -> Seq<HistoryJob> {
        self.queue@
    }

    /// The stores opened so far, by path.
    pub closed spec fn stores_map(&self) -> Map<Seq<char>, HistoryStore> {
        self.stores@
    }

    /// A writer with nothing queued and nothing opened.
    pub fn new() -> (r: Self)
        ensures
            r.wf(),
            r.jobs() == Seq::<HistoryJob>::empty(),
            r.stores_map() == Map::<Seq<char>, HistoryStore>::empty(),
    {
        HistoryWriter { queue: Vec::new(), stores: AssocList::new() }
    }

    /// The store opened at a path, when one is.
    pub fn store_at(&self, path: &str) -> (r: Option<&HistoryStore>)
        requires
            self.wf(),
        ensures
            match r {
                Some(db) => self.stores_map().dom().contains(path@)
                    && self.stores_map()[path@] == *db,
                None => !self.stores_map().dom().contains(path@),
            },
    {
        self.stores.get(path)
    }

    /// Fire-and-forget: appends the job and returns without waiting.
    pub fn enqueue(&mut self, job: HistoryJob)
        requires
            old(self).wf(),
        ensures
            final(self).wf(),
            final(self).jobs() == old(self).jobs().push(job),
            final(self).stores_map() == old(self).stores_map(),
    {
        self.queue.push(job);
    }

    /// The worker takes the oldest job and applies it to the store at its
    /// path, opened on demand.
    pub fn apply_next(&mut self) -> (applied: bool)
        requires
            old(self).wf(),
        ensures
            final(self).wf(),
            old(self).jobs().len() == 0 ==> !applied && *final(self) == *old(self),
            old(self).jobs().len() > 0 ==> applied && final(self).jobs() == old(
                self,
            ).jobs().subrange(1, old(self).jobs().len() as int) && ({
                let job = old(self).jobs()[0];
                final(self).stores_map() == old(self).stores_map().insert(
                    job.db_path@,
                    final(self).stores_map()[job.db_path@],
                ) && final(self).stores_map().dom().contains(job.db_path@) && history_applied(
                    spec_store_history(old(self).stores_map(), job.db_path@),
                    final(self).stores_map()[job.db_path@].records(),
                    job.rec,
                )
            }),
    {
        if self.queue.len() == 0 {
            return false;
        }
        let job = self.queue.remove(0);
        proof {
            assert(self.queue@ =~= old(self).jobs().subrange(1, old(self).jobs().len() as int));
        }
        let mut db = match self.stores.remove(job.db_path.as_str()) {
            Some(db) => db,
            None => HistoryStore::open(job.db_path.clone()),
        };
        db.insert_or_replace(job.rec);
        self.stores.insert(job.db_path, db);
        proof {
            assert(self.stores@ =~= old(self).stores_map().insert(
                old(self).jobs()[0].db_path@,
                self.stores@[old(self).jobs()[0].db_path@],
            ));
        }
        true
    }
}

/// One queued scrape-cache write.
pub struct ScrapeJob {
    pub db_path: String,
    pub session_key: String,
    pub url: String,
    pub filename: Option<String>,
    pub title: Option<String>,
    pub type_tag: Option<String>,
    pub meta: Option<String>,
}

/// What one applied scrape job leaves: the (session key, url) key now maps
/// to a record with the job's fields and the worker's clock reading.
pub open spec fn scrape_applied(
    pre: Map<(Seq<char>, Seq<char>), ScrapeRow>,
    post: Map<(Seq<char>, Seq<char>), ScrapeRow>,
    job: ScrapeJob,
    now: int,
) -> bool {
    post == pre.insert((job.session_key@, job.url@), post[(job.session_key@, job.url@)]) && {
        let row = post[(job.session_key@, job.url@)];
        row.session_key@ == job.session_key@ && row.url@ == job.url@ && row.filename
            == job.filename && row.title == job.title && row.type_tag == job.type_tag && row.meta
            == job.meta && row.updated_at == now
    }
}

/// The records of the scrape store at a path: empty when none was opened.
pub open spec fn spec_store_scrape(stores: Map<Seq<char>, ScrapeStore>, path: Seq<char>) -> Map<
    (Seq<char>, Seq<char>),
    ScrapeRow,
> {
    if stores.dom().contains(path) {
        stores[path].records()
    } else {
        Map::empty()
    }
}

/// The dedicated scrape-cache writer.
pub struct ScrapeWriter {
    queue: Vec<ScrapeJob>,
    stores: AssocList<ScrapeStore>,
}

impl ScrapeWriter {
    pub closed spec fn wf(&self) -> bool {
        self.stores.wf() && forall|p: Seq<char>|
            #[trigger] self.stores@.dom().contains(p) ==> self.stores@[p].wf()
                && self.stores@[p].store_path() == p
    }

    /// The jobs waiting, in submission order.
    pub closed spec fn jobs(&self) -> Seq<ScrapeJob> {
        self.queue@
    }

    /// The stores opened so far, by path.
    pub closed spec fn stores_map(&self) -> Map<Seq<char>, ScrapeStore> {
        self.stores@
    }

    /// A writer with nothing queued and nothing opened.
    pub fn new() -> (r: Self)
        ensures
            r.wf(),
            r.jobs() == Seq::<ScrapeJob>::empty(),
            r.stores_map() == Map::<Seq<char>, ScrapeStore>::empty(),
    {
        ScrapeWriter { queue: Vec::new(), stores: AssocList::new() }
    }

    /// The store opened at a path, when one is.
    pub fn store_at(&self, path: &str) -> (r: Option<&ScrapeStore>)
        requires
            self.wf(),
        ensures
            match r {
                Some(db) => self.stores_map().dom().contains(path@)
                    && self.stores_map()[path@] == *db,
                None => !self.stores_map().dom().contains(path@),
            },
    {
        self.stores.get(path)
    }

    /// Fire-and-forget: appends the job and returns without waiting.
    pub fn enqueue(&mut self, job: ScrapeJob)
        requires
            old(self).wf(),
        ensures
            final(self).wf(),
            final(self).jobs() == old(self).jobs().push(job),
            final(self).stores_map() == old(self).stores_map(),
    {
        self.queue.push(job);
    }

    /// The worker takes the oldest job and applies it to the store at its
    /// path, opened on demand.
    pub fn apply_next(&mut self, now: i64) -> (applied: bool)
        requires
            old(self).wf(),
        ensures
            final(self).wf(),
            old(self).jobs().len() == 0 ==> !applied && *final(self) == *old(self),
            old(self).jobs().len() > 0 ==> applied && final(self).jobs() == old(
                self,
            ).jobs().subrange(1, old(self).jobs().len() as int) && ({
                let job = old(self).jobs()[0];
                final(self).stores_map() == old(self).stores_map().insert(
                    job.db_path@,
                    final(self).stores_map()[job.db_path@],
                ) && final(self).stores_map().dom().contains(job.db_path@) && scrape_applied(
                    spec_store_scrape(old(self).stores_map(), job.db_path@),
                    final(self).stores_map()[job.db_path@].records(),
                    job,
                    now as int,
                )
            }),
    {
        if self.queue.len() == 0 {
            return false;
        }
        let job = self.queue.remove(0);
        proof {
            assert(self.queue@ =~= old(self).jobs().subrange(1, old(self).jobs().len() as int));
        }
        let mut db = match self.stores.remove(job.db_path.as_str()) {
            Some(db) => db,
            None => ScrapeStore::open(job.db_path.clone()),
        };
        let row = ScrapeRow {
            session_key: job.session_key.clone(),
            url: job.url.clone(),
            filename: job.filename,
            title: job.title,
            type_tag: job.type_tag,
            meta: job.meta,
            updated_at: now,
        };
        db.upsert(row);
        self.stores.insert(job.db_path, db);
        proof {
            assert(self.stores@ =~= old(self).stores_map().insert(
                old(self).jobs()[0].db_path@,
                self.stores@[old(self).jobs()[0].db_path@],
            ));
        }
        true
    }
}

} // verus!
