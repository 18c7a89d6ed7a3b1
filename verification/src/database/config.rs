use vstd::prelude::*;

verus! {

/// Where the database keeps its files and how it is tuned.
pub struct DatabaseConfig {
    pub wal_path: String,
    pub sqlite_path: String,
    pub rocks_path: String,
    pub sequence_path: String,
    pub batch_size: usize,
    pub max_queue_capacity: u64,
    pub backpressure_threshold: usize,
}

impl DatabaseConfig {
    /// A field-by-field copy.
    pub fn duplicate(&self) -> (r: DatabaseConfig)
        ensures
            r.wal_path@ == self.wal_path@,
            r.sqlite_path@ == self.sqlite_path@,
            r.rocks_path@ == self.rocks_path@,
            r.sequence_path@ == self.sequence_path@,
            r.batch_size == self.batch_size,
            r.max_queue_capacity == self.max_queue_capacity,
            r.backpressure_threshold == self.backpressure_threshold,
    {
        DatabaseConfig {
            wal_path: self.wal_path.clone(),
            sqlite_path: self.sqlite_path.clone(),
            rocks_path: self.rocks_path.clone(),
            sequence_path: self.sequence_path.clone(),
            batch_size: self.batch_size,
            max_queue_capacity: self.max_queue_capacity,
            backpressure_threshold: self.backpressure_threshold,
        }
    }
}

impl Default for DatabaseConfig {
    fn default() -> (r: DatabaseConfig)
        ensures
            r.wal_path@ == "runter_wal"@,
            r.sqlite_path@ == "runter.db"@,
            r.rocks_path@ == "runter_rocks"@,
            r.sequence_path@ == "runter_seq"@,
            r.batch_size == 500,
            r.max_queue_capacity == 100000,
            r.backpressure_threshold == 50000,
    {
        DatabaseConfig {
            wal_path: String::from_str("runter_wal"),
            sqlite_path: String::from_str("runter.db"),
            rocks_path: String::from_str("runter_rocks"),
            sequence_path: String::from_str("runter_seq"),
            batch_size: 500,
            max_queue_capacity: 100000,
            backpressure_threshold: 50000,
        }
    }
}

} // verus!
