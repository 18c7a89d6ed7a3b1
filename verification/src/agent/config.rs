use vstd::prelude::*;

verus! {

/// How a messaging agent connects and behaves.
pub struct AgentConfig {
    pub display_name: String,
    pub db_passphrase: String,
    pub relay_servers: Vec<String>,
    pub enable_tor: bool,
    pub tor_proxy: Option<String>,
    pub connection_timeout_secs: u64,
    pub retry_max_attempts: u32,
    pub retry_base_delay_ms: u64,
    pub max_message_size: usize,
    pub session_store_path: String,
}

impl Default for AgentConfig {
    /// The defaults: no name or passphrase, the public relay, no Tor.
    fn default() -> (r: AgentConfig)
        ensures
            r.display_name@ == Seq::<char>::empty(),
            r.db_passphrase@ == Seq::<char>::empty(),
            r.relay_servers@.len() == 1,
            r.relay_servers@[0]@ == "rmp.runter.chat:443"@,
            !r.enable_tor,
            r.tor_proxy is None,
            r.connection_timeout_secs == 30,
            r.retry_max_attempts == 5,
            r.retry_base_delay_ms == 100,
            r.max_message_size == 65536,
            r.session_store_path@ == "runter_sessions.db"@,
    {
        let mut relay_servers: Vec<String> = Vec::new();
        relay_servers.push(String::from_str("rmp.runter.chat:443"));
        AgentConfig {
            display_name: String::new(),
            db_passphrase: String::new(),
            relay_servers,
            enable_tor: false,
            tor_proxy: None,
            connection_timeout_secs: 30,
            retry_max_attempts: 5,
            retry_base_delay_ms: 100,
            max_message_size: 65536,
            session_store_path: String::from_str("runter_sessions.db"),
        }
    }
}

} // verus!
