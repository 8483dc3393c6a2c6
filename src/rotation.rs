//! Naming of the rotating local databases.

use vstd::prelude::*;
use crate::metrics::{decimal_text, decimal_text_of};

verus! {

pub struct DatabaseRotator {
    pub db_dir: String,
    pub rotation_interval_ms: u64,
    pub max_databases: usize,
    pub cleanup_age_secs: u64,
}

/// `jetstream_<timestamp>.db`.
pub open spec fn database_name_of(timestamp_secs: u64) -> Seq<char> {
    "jetstream_"@ + decimal_text_of(timestamp_secs as nat) + ".db"@
}

impl DatabaseRotator {
    pub fn new(db_dir: String, rotation_interval_ms: u64, max_databases: usize, cleanup_age_secs: u64) -> (r: DatabaseRotator)
        ensures
            r.db_dir == db_dir,
            r.rotation_interval_ms == rotation_interval_ms,
            r.max_databases == max_databases,
            r.cleanup_age_secs == cleanup_age_secs,
    {
        DatabaseRotator { db_dir, rotation_interval_ms, max_databases, cleanup_age_secs }
    }

    pub fn get_db_dir(&self) -> (r: &String)
        ensures
            *r == self.db_dir,
    {
        &self.db_dir
    }

    /// The path of the database opened at `timestamp_secs` (Unix seconds).
    pub fn get_current_database_path(&self, timestamp_secs: u64) -> (r: String)
        ensures
            r@ == self.db_dir@ + "/"@ + database_name_of(timestamp_secs),
    {
        let mut s = String::from_str(self.db_dir.as_str());
        s.append("/");
        s.append("jetstream_");
        s.append(decimal_text(timestamp_secs).as_str());
        s.append(".db");
        proof {
            assert(s@ =~= self.db_dir@ + "/"@ + database_name_of(timestamp_secs));
        }
        s
    }
}

} // verus!
