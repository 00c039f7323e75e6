//! The snapshot of parsed records that is kept between runs, and when it may
//! stand in for a fresh parse of the database.
use vstd::prelude::*;
use crate::database::{PackageInfo, RecordView, records_view};

verus! {

/// A snapshot: the records, when it was taken, and the database's
/// modification time (seconds since the epoch) at that moment.
pub struct CacheData {
    pub data: Vec<PackageInfo>,
    pub timestamp: Option<u64>,
    pub db_mod_time: Option<u64>,
}

/// A snapshot as values.
pub struct CacheView {
    pub records: Seq<RecordView>,
    pub timestamp: Option<u64>,
    pub db_mod_time: Option<u64>,
}

impl View for CacheData {
    type V = CacheView;

    open spec fn view(&self) -> CacheView {
        CacheView {
            records: records_view(self.data@),
            timestamp: self.timestamp,
            db_mod_time: self.db_mod_time,
        }
    }
}

/// Whether a snapshot may be reused while the database's modification time
/// is `live_mtime` (`None` where it could not be read): only where the
/// snapshot's time is known and not older.
pub open spec fn cache_valid(c: CacheView, live_mtime: Option<u64>) -> bool {
    match (c.db_mod_time, live_mtime) {
        (Some(m), Some(l)) => m >= l,
        _ => false,
    }
}

/// Why a snapshot could not be written or read.
pub enum CacheError {
    /// A file could not be opened, read or written.
    Io(String),
    /// The snapshot could not be encoded or decoded.
    Serde(String),
    /// The clock stands before the epoch.
    SystemTime(String),
}

impl CacheData {
    /// A snapshot of `data`, taken at `timestamp`, of a database last modified
    /// at `db_mod_time`.
    pub fn new(data: Vec<PackageInfo>, timestamp: Option<u64>, db_mod_time: u64) -> (r: CacheData)
        ensures
            r@ == (CacheView {
                records: records_view(data@),
                timestamp,
                db_mod_time: Some(db_mod_time),
            }),
    {
        CacheData { data, timestamp, db_mod_time: Some(db_mod_time) }
    }
}

/// Whether the snapshot may be used while the database's modification time is
/// `live_mtime`: true exactly when the snapshot's time is at least the live one.
pub fn is_cache_valid(cache_data: &CacheData, live_mtime: Option<u64>) -> (r: bool)
    ensures
        r == cache_valid(cache_data@, live_mtime),
{
    match (cache_data.db_mod_time, live_mtime) {
        (Some(m), Some(l)) => m >= l,
        _ => false,
    }
}

/// A snapshot that was valid stops being so once the database is modified
/// after the time it recorded.
pub proof fn lemma_newer_database_invalidates(c: CacheView, earlier: u64, later: u64)
    requires
        cache_valid(c, Some(earlier)),
        c.db_mod_time matches Some(m) && later > m,
    ensures
        !cache_valid(c, Some(later)),
{
}

/// A snapshot is valid exactly while the database is not newer than it.
pub proof fn lemma_valid_iff_not_newer(c: CacheView, m: u64, live: u64)
    requires
        c.db_mod_time == Some(m),
    ensures
        cache_valid(c, Some(live)) <==> m >= live,
{
}

impl CacheError {
    /// The error as a sentence.
    pub fn message(&self) -> (r: String)
        ensures
            r@ == match self {
                CacheError::Io(e) => "IO error: "@ + e@,
                CacheError::Serde(e) => "Serialization error: "@ + e@,
                CacheError::SystemTime(e) => "System time error: "@ + e@,
            },
    {
        let (mut out, e) = match self {
            CacheError::Io(e) => (String::from_str("IO error: "), e),
            CacheError::Serde(e) => (String::from_str("Serialization error: "), e),
            CacheError::SystemTime(e) => (String::from_str("System time error: "), e),
        };
        out.append(e.as_str());
        out
    }
}

} // verus!
