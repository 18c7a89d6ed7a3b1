use vstd::prelude::*;

verus! {

/// How a relay server node runs.
pub struct RmpConfig {
    pub node_id: String,
    pub partition_count: usize,
    pub consumer_batch_size: usize,
    pub consumer_poll_interval_ms: u64,
    pub worker_threads: usize,
    pub retry_max_attempts: u32,
    pub retry_base_delay_ms: u64,
    pub retry_max_delay_ms: u64,
    pub fencing_epoch_file: String,
    pub checkpoint_interval_secs: u64,
    pub backpressure_lag_threshold: u64,
}

/// Whether `c` is a lowercase hexadecimal digit.
pub open spec fn lower_hex_char(c: char) -> bool {
    ('0' <= c && c <= '9') || ('a' <= c && c <= 'f')
}

/// Whether `t` is the hyphenated text of a UUID: 36 characters, hyphens at
/// positions 8, 13, 18 and 23, lowercase hexadecimal digits elsewhere.
pub open spec fn hyphenated_uuid(t: Seq<char>) -> bool {
    &&& t.len() == 36
    &&& forall|i: int| 0 <= i < 36 ==> if i == 8 || i == 13 || i == 18 || i == 23 {
        #[trigger] t[i] == '-'
    } else {
        lower_hex_char(t[i])
    }
}

/// Calls `uuid::Uuid::new_v4().to_string()`: a random UUID. Claimed: the
/// text is in the hyphenated lowercase form that `Display` writes; nothing
/// is claimed of its digits, which are random.
#[verifier::external_body]
fn random_uuid_text() -> (r: String)
    ensures
        hyphenated_uuid(r@),
{
    uuid::Uuid::new_v4().to_string()
}

impl RmpConfig {
    /// A field-by-field copy.
    pub fn duplicate(&self) -> (r: RmpConfig)
        ensures
            r.same_as(self),
    {
        RmpConfig {
            node_id: self.node_id.clone(),
            partition_count: self.partition_count,
            consumer_batch_size: self.consumer_batch_size,
            consumer_poll_interval_ms: self.consumer_poll_interval_ms,
            worker_threads: self.worker_threads,
            retry_max_attempts: self.retry_max_attempts,
            retry_base_delay_ms: self.retry_base_delay_ms,
            retry_max_delay_ms: self.retry_max_delay_ms,
            fencing_epoch_file: self.fencing_epoch_file.clone(),
            checkpoint_interval_secs: self.checkpoint_interval_secs,
            backpressure_lag_threshold: self.backpressure_lag_threshold,
        }
    }

    /// Whether two configurations hold the same values.
    pub open spec fn same_as(&self, other: &RmpConfig) -> bool {
        &&& self.node_id@ == other.node_id@
        &&& self.partition_count == other.partition_count
        &&& self.consumer_batch_size == other.consumer_batch_size
        &&& self.consumer_poll_interval_ms == other.consumer_poll_interval_ms
        &&& self.worker_threads == other.worker_threads
        &&& self.retry_max_attempts == other.retry_max_attempts
        &&& self.retry_base_delay_ms == other.retry_base_delay_ms
        &&& self.retry_max_delay_ms == other.retry_max_delay_ms
        &&& self.fencing_epoch_file@ == other.fencing_epoch_file@
        &&& self.checkpoint_interval_secs == other.checkpoint_interval_secs
        &&& self.backpressure_lag_threshold == other.backpressure_lag_threshold
    }
}

impl Default for RmpConfig {
    /// The defaults: a random node name `node-<uuid>`, sixteen partitions,
    /// and the tuning below.
    fn default() -> (r: RmpConfig)
        ensures
            r.node_id@.subrange(0, 5) == "node-"@,
            hyphenated_uuid(r.node_id@.subrange(5, 41)),
            r.node_id@.len() == 41,
            r.partition_count == 16,
            r.consumer_batch_size == 500,
            r.consumer_poll_interval_ms == 100,
            r.worker_threads == 8,
            r.retry_max_attempts == 5,
            r.retry_base_delay_ms == 100,
            r.retry_max_delay_ms == 30000,
            r.fencing_epoch_file@ == "rmp_epoch"@,
            r.checkpoint_interval_secs == 60,
            r.backpressure_lag_threshold == 10000,
    {
        proof {
            reveal_strlit("node-");
        }
        let mut node_id = String::from_str("node-");
        let id = random_uuid_text();
        node_id.append(id.as_str());
        RmpConfig {
            node_id,
            partition_count: 16,
            consumer_batch_size: 500,
            consumer_poll_interval_ms: 100,
            worker_threads: 8,
            retry_max_attempts: 5,
            retry_base_delay_ms: 100,
            retry_max_delay_ms: 30000,
            fencing_epoch_file: String::from_str("rmp_epoch"),
            checkpoint_interval_secs: 60,
            backpressure_lag_threshold: 10000,
        }
    }
}

} // verus!
