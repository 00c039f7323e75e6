//! The package inventory of one run: the snapshot where it is still valid,
//! else the records of a fresh parse, which become the next snapshot.
use vstd::prelude::*;
use crate::cache::{CacheData, CacheView, cache_valid, is_cache_valid};
use crate::database::{PackageInfo, RecordView, database_records, list_installed_packages, records_view};

verus! {

/// The records of one run, built once and then only read.
pub struct InventoryService {
    packages: Vec<PackageInfo>,
}

impl View for InventoryService {
    type V = Seq<RecordView>;

    closed spec fn view(&self) -> Seq<RecordView> {
        records_view(self.packages@)
    }
}

/// Parses the database's text and makes of it the snapshot to keep: its
/// records, the time now (where the clock could be read), and the database's
/// modification time.
pub fn fetch_installed_packages(contents: &str, db_mod_time: u64, now: Option<u64>) -> (r: CacheData)
    ensures
        r@ == (CacheView {
            records: database_records(contents@),
            timestamp: now,
            db_mod_time: Some(db_mod_time),
        }),
{
    let packages = list_installed_packages(contents);
    CacheData::new(packages, now, db_mod_time)
}

impl InventoryService {
    /// The inventory from a snapshot that was read back, where it is valid
    /// while the database's modification time is `live_mtime`; `None` where a
    /// fresh parse is needed.
    pub fn from_cache(cached: CacheData, live_mtime: Option<u64>) -> (r: Option<InventoryService>)
        ensures
            r is Some <==> cache_valid(cached@, live_mtime),
            r matches Some(s) ==> s@ == cached@.records,
    {
        if is_cache_valid(&cached, live_mtime) {
            Some(InventoryService { packages: cached.data })
        } else {
            None
        }
    }

    /// The inventory of a snapshot just taken.
    pub fn from_snapshot(snapshot: CacheData) -> (r: InventoryService)
        ensures
            r@ == snapshot@.records,
    {
        InventoryService { packages: snapshot.data }
    }

    /// The inventory of a run whose database could not be read: empty.
    pub fn empty() -> (r: InventoryService)
        ensures
            r@ == Seq::<RecordView>::empty(),
    {
        let r = InventoryService { packages: Vec::new() };
        proof {
            assert(r@ =~= Seq::<RecordView>::empty());
        }
        r
    }

    /// The records, in database order.
    pub fn packages(&self) -> (r: &Vec<PackageInfo>)
        ensures
            records_view(r@) == self@,
    {
        &self.packages
    }
}

/// A snapshot taken of a database that has not changed since is valid, and
/// its records are those of the database.
pub proof fn lemma_fresh_snapshot_valid(contents: Seq<char>, db_mod_time: u64, now: Option<u64>, c: CacheView)
    requires
        c == (CacheView {
            records: database_records(contents),
            timestamp: now,
            db_mod_time: Some(db_mod_time),
        }),
    ensures
        cache_valid(c, Some(db_mod_time)),
        c.records == database_records(contents),
{
}

} // verus!
