//! The agent's configuration: the record the rest of the library reads,
//! and its default values. Loading and saving the on-disk file are host
//! concerns outside the library.

use vstd::prelude::*;

verus! {

/// GPU scheduling limits.
#[derive(Debug, Clone, PartialEq)]
pub struct GpuConfig {
    pub max_concurrent_tasks: usize,
    pub reserved_vram_mb: u64,
    pub allowed_gpu_indices: Option<Vec<usize>>,
}

impl Default for GpuConfig {
    fn default() -> (r: Self)
        ensures
            r.max_concurrent_tasks == 1,
            r.reserved_vram_mb == 2048,
            r.allowed_gpu_indices is None,
    {
        GpuConfig { max_concurrent_tasks: 1, reserved_vram_mb: 2048, allowed_gpu_indices: None }
    }
}

/// Transport timing.
#[derive(Debug, Clone, PartialEq)]
pub struct NetworkConfig {
    pub heartbeat_interval_secs: u64,
    pub connection_timeout_secs: u64,
    pub max_retries: usize,
}

impl Default for NetworkConfig {
    fn default() -> (r: Self)
        ensures
            r.heartbeat_interval_secs == 30,
            r.connection_timeout_secs == 10,
            r.max_retries == 3,
    {
        NetworkConfig { heartbeat_interval_secs: 30, connection_timeout_secs: 10, max_retries: 3 }
    }
}

/// When the agent offers itself for work.
#[derive(Debug, Clone, PartialEq)]
pub struct AvailabilityConfig {
    pub always_on: bool,
}

impl Default for AvailabilityConfig {
    fn default() -> (r: Self)
        ensures
            r.always_on == true,
    {
        AvailabilityConfig { always_on: true }
    }
}

/// The agent's configuration record.
#[derive(Debug, Clone, PartialEq)]
pub struct Config {
    pub agent_id: String,
    pub platform_url: String,
    pub private_key_path: String,
    pub data_dir: String,
    pub log_level: String,
    pub gpu: GpuConfig,
    pub network: NetworkConfig,
    pub availability: AvailabilityConfig,
}

/// The default log level.
pub fn default_log_level() -> (r: &'static str)
    ensures
        r@ == "info"@,
{
    "info"
}

/// The default availability flag.
pub fn default_true() -> (r: bool)
    ensures
        r == true,
{
    true
}

/// The default private key path under a data directory.
pub fn default_private_key_path(data_dir: &str) -> (r: String)
    ensures
        r@ == data_dir@ + "/agent.key"@,
{
    let mut out = data_dir.to_owned();
    out.append("/agent.key");
    out
}

impl Config {
    /// The default configuration, rooted at a data directory and named
    /// after the host.
    pub fn default_in(data_dir: &str, hostname: &str) -> (r: Config)
        ensures
            r.agent_id@ == "agent-"@ + hostname@,
            r.platform_url@ == "https://platform.orban.ai"@,
            r.private_key_path@ == data_dir@ + "/agent.key"@,
            r.data_dir@ == data_dir@,
            r.log_level@ == "info"@,
            r.gpu.max_concurrent_tasks == 1,
            r.network.heartbeat_interval_secs == 30,
            r.availability.always_on == true,
    {
        let mut agent_id = "agent-".to_owned();
        agent_id.append(hostname);
        Config {
            agent_id,
            platform_url: "https://platform.orban.ai".to_owned(),
            private_key_path: default_private_key_path(data_dir),
            data_dir: data_dir.to_owned(),
            log_level: "info".to_owned(),
            gpu: Default::default(),
            network: Default::default(),
            availability: Default::default(),
        }
    }

    /// The earnings file's path.
    pub fn earnings_file(&self) -> (r: String)
        ensures
            r@ == self.data_dir@ + "/earnings.json"@,
    {
        let mut out = self.data_dir.as_str().to_owned();
        out.append("/earnings.json");
        out
    }

    /// The state file's path.
    pub fn state_file(&self) -> (r: String)
        ensures
            r@ == self.data_dir@ + "/state.json"@,
    {
        let mut out = self.data_dir.as_str().to_owned();
        out.append("/state.json");
        out
    }

    /// The log directory's path.
    pub fn log_dir(&self) -> (r: String)
        ensures
            r@ == self.data_dir@ + "/logs"@,
    {
        let mut out = self.data_dir.as_str().to_owned();
        out.append("/logs");
        out
    }
}

} // verus!
