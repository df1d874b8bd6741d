//! Node configuration: defaults, network-dependent constants and merging of TOML sections.
//! Durations are held in milliseconds.

use vstd::prelude::*;
use vstd::string::StringExecFns;

verus! {

/// The networks a node can run on.
#[derive(Clone, Copy, Debug, PartialEq, Eq, Structural)]
pub enum Networks {
    Invalid,
    NanoBetaNetwork,
    NanoDevNetwork,
    NanoLiveNetwork,
    NanoTestNetwork,
}

/// The network-wide constants the configuration depends on.
#[derive(Clone, Copy, Debug, PartialEq, Eq)]
pub struct NetworkConstants {
    pub current_network: Networks,
}

impl NetworkConstants {
    pub open spec fn spec_is_dev_network(&self) -> bool {
        self.current_network == Networks::NanoDevNetwork
    }

    pub fn is_dev_network(&self) -> (r: bool)
        ensures
            r == self.spec_is_dev_network(),
    {
        self.current_network == Networks::NanoDevNetwork
    }
}

#[derive(Clone, Copy, Debug, PartialEq, Eq)]
pub struct BacklogPopulationConfig {
    /// Whether ongoing backlog population runs. If not, it can still be triggered manually.
    pub enabled: bool,
    /// Accounts per second to process; each batch is this divided by `frequency`.
    pub batch_size: u32,
    /// Batches per second.
    pub frequency: u32,
}

impl BacklogPopulationConfig {
    pub fn default() -> (r: Self)
        ensures
            r.enabled,
            r.batch_size == 10 * 1000,
            r.frequency == 10,
    {
        BacklogPopulationConfig { enabled: true, batch_size: 10 * 1000, frequency: 10 }
    }

    /// Overrides the values that the TOML section sets.
    pub fn merge_toml(&mut self, toml: &BacklogPopulationToml)
        ensures
            final(self).enabled == (match toml.enable { Some(v) => v, None => old(self).enabled }),
            final(self).batch_size == (match toml.batch_size { Some(v) => v, None => old(self).batch_size }),
            final(self).frequency == (match toml.frequency { Some(v) => v, None => old(self).frequency }),
    {
        if let Some(enable) = toml.enable {
            self.enabled = enable;
        }
        if let Some(size) = toml.batch_size {
            self.batch_size = size;
        }
        if let Some(freq) = toml.frequency {
            self.frequency = freq;
        }
    }
}

/// The `backlog_population` TOML section.
#[derive(Clone, Copy, Debug, PartialEq, Eq)]
pub struct BacklogPopulationToml {
    pub enable: Option<bool>,
    pub batch_size: Option<u32>,
    pub frequency: Option<u32>,
}

impl BacklogPopulationToml {
    /// The section that sets every value of the configuration.
    pub fn from_config(value: &BacklogPopulationConfig) -> (r: Self)
        ensures
            r.enable == Some(value.enabled),
            r.batch_size == Some(value.batch_size),
            r.frequency == Some(value.frequency),
    {
        BacklogPopulationToml { enable: Some(value.enabled), batch_size: Some(value.batch_size), frequency: Some(value.frequency) }
    }
}

#[derive(Clone, Copy, Debug, PartialEq, Eq)]
pub struct HintedSchedulerConfig {
    pub enabled: bool,
    pub check_interval_ms: u64,
    pub block_cooldown_ms: u64,
    pub hinting_threshold_percent: u32,
    pub vacancy_threshold_percent: u32,
}

impl HintedSchedulerConfig {
    pub open spec fn spec_default() -> Self {
        HintedSchedulerConfig {
            enabled: true,
            check_interval_ms: 1000,
            block_cooldown_ms: 5000,
            hinting_threshold_percent: 10,
            vacancy_threshold_percent: 20,
        }
    }

    pub fn default() -> (r: Self)
        ensures
            r == Self::spec_default(),
            r.enabled,
            r.check_interval_ms == 1000,
            r.block_cooldown_ms == 5000,
            r.hinting_threshold_percent == 10,
            r.vacancy_threshold_percent == 20,
    {
        HintedSchedulerConfig {
            enabled: true,
            check_interval_ms: 1000,
            block_cooldown_ms: 5000,
            hinting_threshold_percent: 10,
            vacancy_threshold_percent: 20,
        }
    }

    /// The defaults with shorter intervals for the dev network.
    pub open spec fn spec_default_for_dev_network() -> Self {
        HintedSchedulerConfig { check_interval_ms: 100, block_cooldown_ms: 100, ..Self::spec_default() }
    }

    pub fn default_for_dev_network() -> (r: Self)
        ensures
            r == Self::spec_default_for_dev_network(),
            r.enabled,
            r.check_interval_ms == 100,
            r.block_cooldown_ms == 100,
            r.hinting_threshold_percent == 10,
            r.vacancy_threshold_percent == 20,
    {
        let d = Self::default();
        HintedSchedulerConfig { check_interval_ms: 100, block_cooldown_ms: 100, ..d }
    }

    /// The defaults, overridden by what the TOML section sets.
    pub open spec fn spec_from_toml(toml: HintedSchedulerToml) -> Self {
        HintedSchedulerConfig {
            enabled: match toml.enable { Some(v) => v, None => true },
            check_interval_ms: match toml.check_interval { Some(v) => v, None => 1000 },
            block_cooldown_ms: match toml.block_cooldown { Some(v) => v, None => 5000 },
            hinting_threshold_percent: match toml.hinting_threshold { Some(v) => v, None => 10 },
            vacancy_threshold_percent: match toml.vacancy_threshold { Some(v) => v, None => 20 },
        }
    }

    /// The defaults, overridden by what the TOML section sets.
    pub fn from_toml(toml: &HintedSchedulerToml) -> (r: Self)
        ensures
            r == Self::spec_from_toml(*toml),
            r.enabled == (match toml.enable { Some(v) => v, None => true }),
            r.check_interval_ms == (match toml.check_interval { Some(v) => v, None => 1000 }),
            r.block_cooldown_ms == (match toml.block_cooldown { Some(v) => v, None => 5000 }),
            r.hinting_threshold_percent == (match toml.hinting_threshold { Some(v) => v, None => 10 }),
            r.vacancy_threshold_percent == (match toml.vacancy_threshold { Some(v) => v, None => 20 }),
    {
        let mut config = Self::default();
        if let Some(enabled) = toml.enable {
            config.enabled = enabled;
        }
        if let Some(block_cooldown) = toml.block_cooldown {
            config.block_cooldown_ms = block_cooldown;
        }
        if let Some(check_interval) = toml.check_interval {
            config.check_interval_ms = check_interval;
        }
        if let Some(hinting_threshold) = toml.hinting_threshold {
            config.hinting_threshold_percent = hinting_threshold;
        }
        if let Some(vacancy_threshold) = toml.vacancy_threshold {
            config.vacancy_threshold_percent = vacancy_threshold;
        }
        config
    }
}

/// The `hinted_scheduler` TOML section.
#[derive(Clone, Copy, Debug, PartialEq, Eq)]
pub struct HintedSchedulerToml {
    pub enable: Option<bool>,
    pub hinting_threshold: Option<u32>,
    pub check_interval: Option<u64>,
    pub block_cooldown: Option<u64>,
    pub vacancy_threshold: Option<u32>,
}

impl HintedSchedulerToml {
    pub fn from_config(config: &HintedSchedulerConfig) -> (r: Self)
        ensures
            r.enable == Some(config.enabled),
            r.hinting_threshold == Some(config.hinting_threshold_percent),
            r.check_interval == Some(config.check_interval_ms),
            r.block_cooldown == Some(config.block_cooldown_ms),
            r.vacancy_threshold == Some(config.vacancy_threshold_percent),
    {
        HintedSchedulerToml {
            enable: Some(config.enabled),
            hinting_threshold: Some(config.hinting_threshold_percent),
            check_interval: Some(config.check_interval_ms),
            block_cooldown: Some(config.block_cooldown_ms),
            vacancy_threshold: Some(config.vacancy_threshold_percent),
        }
    }

    /// The section that sets every value of the default configuration.
    pub fn default() -> (r: Self)
        ensures
            r == Self::spec_of(HintedSchedulerConfig { enabled: true, check_interval_ms: 1000, block_cooldown_ms: 5000,
                hinting_threshold_percent: 10, vacancy_threshold_percent: 20 }),
    {
        Self::from_config(&HintedSchedulerConfig::default())
    }

    pub open spec fn spec_of(config: HintedSchedulerConfig) -> Self {
        HintedSchedulerToml {
            enable: Some(config.enabled),
            hinting_threshold: Some(config.hinting_threshold_percent),
            check_interval: Some(config.check_interval_ms),
            block_cooldown: Some(config.block_cooldown_ms),
            vacancy_threshold: Some(config.vacancy_threshold_percent),
        }
    }
}

#[derive(Clone, Copy, Debug, PartialEq, Eq)]
pub struct MessageProcessorConfig {
    pub threads: usize,
    pub max_queue: usize,
}

impl MessageProcessorConfig {
    pub fn merge_toml(&mut self, toml: &MessageProcessorToml)
        ensures
            final(self).threads == (match toml.threads { Some(v) => v, None => old(self).threads }),
            final(self).max_queue == (match toml.max_queue { Some(v) => v, None => old(self).max_queue }),
    {
        if let Some(threads) = toml.threads {
            self.threads = threads;
        }
        if let Some(max_queue) = toml.max_queue {
            self.max_queue = max_queue;
        }
    }
}

/// The `message_processor` TOML section.
#[derive(Clone, Copy, Debug, PartialEq, Eq)]
pub struct MessageProcessorToml {
    pub max_queue: Option<usize>,
    pub threads: Option<usize>,
}

impl MessageProcessorToml {
    pub fn from_config(config: &MessageProcessorConfig) -> (r: Self)
        ensures
            r.threads == Some(config.threads),
            r.max_queue == Some(config.max_queue),
    {
        MessageProcessorToml { threads: Some(config.threads), max_queue: Some(config.max_queue) }
    }
}

#[derive(Clone, Copy, Debug, PartialEq, Eq)]
pub struct RequestAggregatorConfig {
    pub threads: usize,
    pub max_queue: usize,
    pub batch_size: usize,
}

impl RequestAggregatorConfig {
    pub fn merge_toml(&mut self, toml: &RequestAggregatorToml)
        ensures
            final(self).threads == (match toml.threads { Some(v) => v, None => old(self).threads }),
            final(self).max_queue == (match toml.max_queue { Some(v) => v, None => old(self).max_queue }),
            final(self).batch_size == (match toml.batch_size { Some(v) => v, None => old(self).batch_size }),
    {
        if let Some(threads) = toml.threads {
            self.threads = threads;
        }
        if let Some(max_queue) = toml.max_queue {
            self.max_queue = max_queue;
        }
        if let Some(batch_size) = toml.batch_size {
            self.batch_size = batch_size;
        }
    }
}

/// The `request_aggregator` TOML section.
#[derive(Clone, Copy, Debug, PartialEq, Eq)]
pub struct RequestAggregatorToml {
    pub batch_size: Option<usize>,
    pub max_queue: Option<usize>,
    pub threads: Option<usize>,
}

impl RequestAggregatorToml {
    pub fn from_config(config: &RequestAggregatorConfig) -> (r: Self)
        ensures
            r.threads == Some(config.threads),
            r.max_queue == Some(config.max_queue),
            r.batch_size == Some(config.batch_size),
    {
        RequestAggregatorToml { threads: Some(config.threads), max_queue: Some(config.max_queue), batch_size: Some(config.batch_size) }
    }
}

#[derive(Clone, Copy, Debug, PartialEq, Eq)]
pub struct VoteProcessorConfig {
    pub max_pr_queue: usize,
    pub max_non_pr_queue: usize,
    pub pr_priority: usize,
    pub threads: usize,
    pub batch_size: usize,
}

impl VoteProcessorConfig {
    pub fn merge_toml(&mut self, toml: &VoteProcessorToml)
        ensures
            final(self).max_pr_queue == (match toml.max_pr_queue { Some(v) => v, None => old(self).max_pr_queue }),
            final(self).max_non_pr_queue == (match toml.max_non_pr_queue { Some(v) => v, None => old(self).max_non_pr_queue }),
            final(self).pr_priority == (match toml.pr_priority { Some(v) => v, None => old(self).pr_priority }),
            final(self).threads == (match toml.threads { Some(v) => v, None => old(self).threads }),
            final(self).batch_size == (match toml.batch_size { Some(v) => v, None => old(self).batch_size }),
    {
        if let Some(max_pr_queue) = toml.max_pr_queue {
            self.max_pr_queue = max_pr_queue;
        }
        if let Some(max_non_pr_queue) = toml.max_non_pr_queue {
            self.max_non_pr_queue = max_non_pr_queue;
        }
        if let Some(pr_priority) = toml.pr_priority {
            self.pr_priority = pr_priority;
        }
        if let Some(threads) = toml.threads {
            self.threads = threads;
        }
        if let Some(batch_size) = toml.batch_size {
            self.batch_size = batch_size;
        }
    }
}

/// The `vote_processor` TOML section.
#[derive(Clone, Copy, Debug, PartialEq, Eq)]
pub struct VoteProcessorToml {
    pub batch_size: Option<usize>,
    pub max_non_pr_queue: Option<usize>,
    pub max_pr_queue: Option<usize>,
    pub pr_priority: Option<usize>,
    pub threads: Option<usize>,
}

impl VoteProcessorToml {
    pub fn from_config(config: &VoteProcessorConfig) -> (r: Self)
        ensures
            r.max_pr_queue == Some(config.max_pr_queue),
            r.max_non_pr_queue == Some(config.max_non_pr_queue),
            r.pr_priority == Some(config.pr_priority),
            r.threads == Some(config.threads),
            r.batch_size == Some(config.batch_size),
    {
        VoteProcessorToml {
            max_pr_queue: Some(config.max_pr_queue),
            max_non_pr_queue: Some(config.max_non_pr_queue),
            pr_priority: Some(config.pr_priority),
            threads: Some(config.threads),
            batch_size: Some(config.batch_size),
        }
    }
}

#[derive(Clone, Debug, PartialEq, Eq)]
pub struct WebsocketConfig {
    pub enabled: bool,
    pub port: u16,
    pub address: String,
}

impl WebsocketConfig {
    pub fn merge_toml(&mut self, toml: &WebsocketToml)
        ensures
            final(self).enabled == (match toml.enable { Some(v) => v, None => old(self).enabled }),
            final(self).port == (match toml.port { Some(v) => v, None => old(self).port }),
            final(self).address@ == (match toml.address { Some(v) => v@, None => old(self).address@ }),
    {
        if let Some(enabled) = toml.enable {
            self.enabled = enabled;
        }
        if let Some(port) = toml.port {
            self.port = port;
        }
        if let Some(address) = &toml.address {
            self.address = address.clone();
        }
    }
}

/// The `websocket` TOML section.
#[derive(Clone, Debug, PartialEq, Eq)]
pub struct WebsocketToml {
    pub address: Option<String>,
    pub enable: Option<bool>,
    pub port: Option<u16>,
}

impl WebsocketToml {
    pub fn from_config(config: &WebsocketConfig) -> (r: Self)
        ensures
            r.enable == Some(config.enabled),
            r.port == Some(config.port),
            r.address matches Some(a) && a@ == config.address@,
    {
        WebsocketToml { enable: Some(config.enabled), port: Some(config.port), address: Some(config.address.clone()) }
    }
}

#[derive(Clone, Copy, Debug, PartialEq, Eq)]
pub struct TcpConfig {
    pub max_inbound_connections: usize,
    pub max_outbound_connections: usize,
    pub max_attempts: usize,
    pub max_attempts_per_ip: usize,
    pub connect_timeout_ms: u64,
}

impl TcpConfig {
    pub open spec fn spec_default() -> Self {
        TcpConfig {
            max_inbound_connections: 2048,
            max_outbound_connections: 2048,
            max_attempts: 60,
            max_attempts_per_ip: 1,
            connect_timeout_ms: 60_000,
        }
    }

    pub fn default() -> (r: Self)
        ensures
            r == Self::spec_default(),
            r.max_inbound_connections == 2048,
            r.max_outbound_connections == 2048,
            r.max_attempts == 60,
            r.max_attempts_per_ip == 1,
            r.connect_timeout_ms == 60_000,
    {
        TcpConfig {
            max_inbound_connections: 2048,
            max_outbound_connections: 2048,
            max_attempts: 60,
            max_attempts_per_ip: 1,
            connect_timeout_ms: 60_000,
        }
    }

    pub open spec fn spec_for_dev_network() -> Self {
        TcpConfig {
            max_inbound_connections: 128,
            max_outbound_connections: 128,
            max_attempts: 128,
            max_attempts_per_ip: 128,
            connect_timeout_ms: 5_000,
        }
    }

    pub fn for_dev_network() -> (r: Self)
        ensures
            r == Self::spec_for_dev_network(),
            r.max_inbound_connections == 128,
            r.max_outbound_connections == 128,
            r.max_attempts == 128,
            r.max_attempts_per_ip == 128,
            r.connect_timeout_ms == 5_000,
    {
        TcpConfig {
            max_inbound_connections: 128,
            max_outbound_connections: 128,
            max_attempts: 128,
            max_attempts_per_ip: 128,
            connect_timeout_ms: 5_000,
        }
    }
}

#[derive(Clone, Copy, Debug, PartialEq, Eq)]
pub struct MonitorConfig {
    pub enabled: bool,
    pub interval_ms: u64,
}

impl MonitorConfig {
    pub open spec fn spec_default() -> Self {
        MonitorConfig { enabled: true, interval_ms: 60_000 }
    }

    pub fn default() -> (r: Self)
        ensures
            r == Self::spec_default(),
            r.enabled,
            r.interval_ms == 60_000,
    {
        MonitorConfig { enabled: true, interval_ms: 60_000 }
    }
}

#[derive(Clone, Debug, PartialEq, Eq)]
pub struct StatsConfig {
    /// How many sample intervals to keep in the ring buffer.
    pub max_samples: usize,
    /// How often to log the sample array; 0 for no logging.
    pub log_samples_interval_ms: u64,
    /// How often to log counters; 0 for no logging.
    pub log_counters_interval_ms: u64,
    /// Maximum number of log outputs before rotating the file.
    pub log_rotation_count: usize,
    /// Whether to write headers (log type and wall time) on each write-out.
    pub log_headers: bool,
    pub log_counters_filename: String,
    pub log_samples_filename: String,
}

impl StatsConfig {
    pub fn new() -> (r: Self)
        ensures
            r.max_samples == 1024 * 16,
            r.log_samples_interval_ms == 0,
            r.log_counters_interval_ms == 0,
            r.log_rotation_count == 100,
            r.log_headers,
            r.log_counters_filename@ == "counters.stat"@,
            r.log_samples_filename@ == "samples.stat"@,
    {
        StatsConfig {
            max_samples: 1024 * 16,
            log_samples_interval_ms: 0,
            log_counters_interval_ms: 0,
            log_rotation_count: 100,
            log_headers: true,
            log_counters_filename: String::from_str("counters.stat"),
            log_samples_filename: String::from_str("samples.stat"),
        }
    }
}

#[derive(Clone, Copy, Debug, PartialEq, Eq)]
pub struct TxnTrackingConfig {
    /// Whether to track read/write transactions held open longer than the minimum times.
    pub enable: bool,
    pub min_read_txn_time_ms: i64,
    pub min_write_txn_time_ms: i64,
    pub ignore_writes_below_block_processor_max_time: bool,
}

impl TxnTrackingConfig {
    pub fn new() -> (r: Self)
        ensures
            !r.enable,
            r.min_read_txn_time_ms == 5000,
            r.min_write_txn_time_ms == 500,
            r.ignore_writes_below_block_processor_max_time,
    {
        TxnTrackingConfig {
            enable: false,
            min_read_txn_time_ms: 5000,
            min_write_txn_time_ms: 500,
            ignore_writes_below_block_processor_max_time: true,
        }
    }
}

#[derive(Clone, Copy, Debug, PartialEq, Eq)]
pub struct BootstrapServerConfig {
    pub max_queue: usize,
    pub threads: usize,
    pub batch_size: usize,
}

impl BootstrapServerConfig {
    pub open spec fn spec_default() -> Self {
        BootstrapServerConfig { max_queue: 16, threads: 1, batch_size: 64 }
    }

    pub fn default() -> (r: Self)
        ensures
            r == Self::spec_default(),
            r.max_queue == 16,
            r.threads == 1,
            r.batch_size == 64,
    {
        BootstrapServerConfig { max_queue: 16, threads: 1, batch_size: 64 }
    }
}

#[derive(Clone, Copy, Debug, PartialEq, Eq)]
pub struct BootstrapConstants {
    pub lazy_max_pull_blocks: u32,
    pub lazy_min_pull_blocks: u32,
    pub frontier_retry_limit: u32,
    pub lazy_retry_limit: u32,
    pub lazy_destinations_retry_limit: u32,
    pub gap_cache_bootstrap_start_interval_ms: i64,
    pub default_frontiers_age_seconds: u32,
}

impl BootstrapConstants {
    pub fn new(network_constants: &NetworkConstants) -> (r: Self)
        ensures
            network_constants.spec_is_dev_network() ==> r == (BootstrapConstants {
                lazy_max_pull_blocks: 2,
                lazy_min_pull_blocks: 1,
                frontier_retry_limit: 2,
                lazy_retry_limit: 2,
                lazy_destinations_retry_limit: 1,
                gap_cache_bootstrap_start_interval_ms: 5,
                default_frontiers_age_seconds: 1,
            }),
            !network_constants.spec_is_dev_network() ==> r == (BootstrapConstants {
                lazy_max_pull_blocks: 512,
                lazy_min_pull_blocks: 32,
                frontier_retry_limit: 16,
                lazy_retry_limit: 64,
                lazy_destinations_retry_limit: 4,
                gap_cache_bootstrap_start_interval_ms: 30_000i64,
                default_frontiers_age_seconds: 86_400u32,
            }),
    {
        let dev = network_constants.is_dev_network();
        let frontier_retry_limit: u32 = if dev { 2 } else { 16 };
        BootstrapConstants {
            lazy_max_pull_blocks: if dev { 2 } else { 512 },
            lazy_min_pull_blocks: if dev { 1 } else { 32 },
            frontier_retry_limit,
            lazy_retry_limit: if dev { 2 } else { frontier_retry_limit * 4 },
            lazy_destinations_retry_limit: if dev { 1 } else { frontier_retry_limit / 4 },
            gap_cache_bootstrap_start_interval_ms: if dev { 5 } else { 30 * 1000 },
            default_frontiers_age_seconds: if dev { 1 } else { 24 * 60 * 60 },
        }
    }
}

#[derive(Clone, Copy, Debug, PartialEq, Eq)]
pub struct VotingConstants {
    pub max_cache: usize,
    pub delay_s: i64,
}

impl VotingConstants {
    pub fn new(network_constants: &NetworkConstants) -> (r: Self)
        ensures
            r.max_cache == (if network_constants.spec_is_dev_network() { 256usize } else { 131_072usize }),
            r.delay_s == (if network_constants.spec_is_dev_network() { 1i64 } else { 15i64 }),
    {
        let dev = network_constants.is_dev_network();
        VotingConstants { max_cache: if dev { 256 } else { 128 * 1024 }, delay_s: if dev { 1 } else { 15 } }
    }
}

/// Merging a section that was made from a configuration into any configuration yields
/// that configuration.
pub proof fn lemma_backlog_toml_round_trip(base: BacklogPopulationConfig, c: BacklogPopulationConfig)
    ensures
        ({
            let t = BacklogPopulationToml { enable: Some(c.enabled), batch_size: Some(c.batch_size), frequency: Some(c.frequency) };
            BacklogPopulationConfig {
                enabled: match t.enable { Some(v) => v, None => base.enabled },
                batch_size: match t.batch_size { Some(v) => v, None => base.batch_size },
                frequency: match t.frequency { Some(v) => v, None => base.frequency },
            } == c
        }),
{
}

/// Reading a hinted scheduler section that was made from a configuration gives back that
/// configuration.
pub proof fn lemma_hinted_toml_round_trip(c: HintedSchedulerConfig)
    ensures
        ({
            let t = HintedSchedulerToml::spec_of(c);
            HintedSchedulerConfig {
                enabled: match t.enable { Some(v) => v, None => true },
                check_interval_ms: match t.check_interval { Some(v) => v, None => 1000 },
                block_cooldown_ms: match t.block_cooldown { Some(v) => v, None => 5000 },
                hinting_threshold_percent: match t.hinting_threshold { Some(v) => v, None => 10 },
                vacancy_threshold_percent: match t.vacancy_threshold { Some(v) => v, None => 20 },
            } == c
        }),
{
}

/// The optimistic scheduler's settings.
#[derive(Clone, Copy, Debug, PartialEq, Eq)]
pub struct OptimisticSchedulerConfig {
    pub enabled: bool,
    /// Minimum gap between the confirmed height and the account's head to activate it.
    pub gap_threshold: u64,
    /// Maximum number of accounts queued.
    pub max_size: usize,
}

/// The `optimistic_scheduler` TOML section.
#[derive(Clone, Copy, Debug, PartialEq, Eq)]
pub struct OptimisticSchedulerToml {
    pub enable: Option<bool>,
    pub gap_threshold: Option<u64>,
    pub max_size: Option<usize>,
}

impl OptimisticSchedulerToml {
    pub fn from_config(config: &OptimisticSchedulerConfig) -> (r: Self)
        ensures
            r.enable == Some(config.enabled),
            r.gap_threshold == Some(config.gap_threshold),
            r.max_size == Some(config.max_size),
    {
        OptimisticSchedulerToml {
            enable: Some(config.enabled),
            gap_threshold: Some(config.gap_threshold),
            max_size: Some(config.max_size),
        }
    }

    /// The configuration this section describes: `base` with the values the section sets.
    pub fn to_config(&self, base: &OptimisticSchedulerConfig) -> (r: OptimisticSchedulerConfig)
        ensures
            r.enabled == (match self.enable { Some(v) => v, None => base.enabled }),
            r.gap_threshold == (match self.gap_threshold { Some(v) => v, None => base.gap_threshold }),
            r.max_size == (match self.max_size { Some(v) => v, None => base.max_size }),
    {
        let mut config = *base;
        if let Some(enabled) = self.enable {
            config.enabled = enabled;
        }
        if let Some(gap_threshold) = self.gap_threshold {
            config.gap_threshold = gap_threshold;
        }
        if let Some(max_size) = self.max_size {
            config.max_size = max_size;
        }
        config
    }
}

/// The `httpcallback` TOML section: where the node posts its confirmation callbacks.
#[derive(Clone, Debug, PartialEq, Eq)]
pub struct HttpcallbackToml {
    pub address: Option<String>,
    pub port: Option<u16>,
    pub target: Option<String>,
}

impl HttpcallbackToml {
    /// The section that sets all of the callback's address, port and target.
    pub fn from_values(address: &String, port: u16, target: &String) -> (r: Self)
        ensures
            r.address matches Some(a) && a@ == address@,
            r.port == Some(port),
            r.target matches Some(t) && t@ == target@,
    {
        HttpcallbackToml { address: Some(address.clone()), port: Some(port), target: Some(target.clone()) }
    }

    /// Overrides the callback's address, port and target with the values the section sets.
    pub fn merge_into(&self, address: &mut String, port: &mut u16, target: &mut String)
        ensures
            final(address)@ == (match self.address { Some(v) => v@, None => old(address)@ }),
            *final(port) == (match self.port { Some(v) => v, None => *old(port) }),
            final(target)@ == (match self.target { Some(v) => v@, None => old(target)@ }),
    {
        if let Some(a) = &self.address {
            *address = a.clone();
        }
        if let Some(p) = self.port {
            *port = p;
        }
        if let Some(t) = &self.target {
            *target = t.clone();
        }
    }
}

/// The `rep_crawler` TOML section.
#[derive(Clone, Copy, Debug, PartialEq, Eq)]
pub struct RepCrawlerToml {
    /// How long the crawler waits for a representative's reply, in milliseconds.
    pub query_timeout: Option<u64>,
}

impl RepCrawlerToml {
    pub fn from_query_timeout(query_timeout_ms: u64) -> (r: Self)
        ensures
            r.query_timeout == Some(query_timeout_ms),
    {
        RepCrawlerToml { query_timeout: Some(query_timeout_ms) }
    }

    /// Overrides the crawler's query timeout when the section sets one.
    pub fn merge_into(&self, query_timeout_ms: &mut u64)
        ensures
            *final(query_timeout_ms) == (match self.query_timeout { Some(v) => v, None => *old(query_timeout_ms) }),
    {
        if let Some(t) = self.query_timeout {
            *query_timeout_ms = t;
        }
    }
}

/// Settings of the ascending bootstrapper. Durations are in milliseconds.
#[derive(Clone, Copy, Debug, PartialEq, Eq)]
pub struct BootstrapConfig {
    pub enable: bool,
    pub enable_priorities: bool,
    pub enable_dependency_walker: bool,
    pub enable_frontier_scan: bool,
    pub enable_database_scan: bool,
    /// Maximum number of unanswered requests per channel.
    pub channel_limit: usize,
    /// Outgoing requests per second over all channels.
    pub rate_limit: usize,
    pub database_rate_limit: usize,
    pub frontier_rate_limit: usize,
    pub database_warmup_ratio: usize,
    pub max_pull_count: u8,
    pub request_timeout_ms: u64,
    pub throttle_coefficient: usize,
    pub throttle_wait_ms: u64,
    pub block_processor_threshold: usize,
    /// Minimum protocol version of the peers bootstrapped from.
    pub min_protocol_version: u8,
    pub max_requests: usize,
    pub optimistic_request_percentage: u8,
    /// How many frontier replies may wait in the processor.
    pub max_pending_frontier_responses: usize,
    pub account_sets: AccountSetsConfig,
}

/// Limits of the bootstrapper's candidate account sets. Durations are in milliseconds.
#[derive(Clone, Copy, Debug, PartialEq, Eq)]
pub struct AccountSetsConfig {
    pub consideration_count: usize,
    pub priorities_max: usize,
    pub blocking_max: usize,
    pub cooldown_ms: u64,
}

impl AccountSetsConfig {
    pub open spec fn spec_default() -> Self {
        AccountSetsConfig { consideration_count: 4, priorities_max: 262_144, blocking_max: 262_144, cooldown_ms: 3000 }
    }

    pub fn default() -> (r: Self)
        ensures
            r == Self::spec_default(),
    {
        AccountSetsConfig { consideration_count: 4, priorities_max: 256 * 1024, blocking_max: 256 * 1024, cooldown_ms: 3000 }
    }
}

impl BootstrapConfig {
    pub open spec fn spec_default() -> Self {
        BootstrapConfig {
            enable: true,
            enable_priorities: true,
            enable_dependency_walker: true,
            enable_frontier_scan: true,
            enable_database_scan: true,
            channel_limit: 16,
            rate_limit: 500,
            database_rate_limit: 256,
            frontier_rate_limit: 8,
            database_warmup_ratio: 10,
            max_pull_count: 128,
            request_timeout_ms: 3000,
            throttle_coefficient: 8192,
            throttle_wait_ms: 100,
            block_processor_threshold: 1000,
            min_protocol_version: 0x12,
            max_requests: 1024,
            optimistic_request_percentage: 75,
            max_pending_frontier_responses: 16,
            account_sets: AccountSetsConfig::spec_default(),
        }
    }

    pub fn default() -> (r: Self)
        ensures
            r == Self::spec_default(),
            r.enable && r.enable_priorities && r.enable_dependency_walker && r.enable_frontier_scan,
            r.enable_database_scan,
            r.channel_limit == 16,
            r.rate_limit == 500,
            r.database_rate_limit == 256,
            r.frontier_rate_limit == 8,
            r.database_warmup_ratio == 10,
            r.max_pull_count == 128,
            r.request_timeout_ms == 3000,
            r.throttle_coefficient == 8 * 1024,
            r.throttle_wait_ms == 100,
            r.block_processor_threshold == 1000,
            r.min_protocol_version == 0x12,
            r.max_requests == 1024,
            r.optimistic_request_percentage == 75,
            r.max_pending_frontier_responses == 16,
            r.account_sets == AccountSetsConfig::spec_default(),
    {
        BootstrapConfig {
            enable: true,
            enable_priorities: true,
            enable_dependency_walker: true,
            enable_frontier_scan: true,
            enable_database_scan: true,
            channel_limit: 16,
            rate_limit: 500,
            database_rate_limit: 256,
            frontier_rate_limit: 8,
            database_warmup_ratio: 10,
            max_pull_count: 128,
            request_timeout_ms: 3000,
            throttle_coefficient: 8 * 1024,
            throttle_wait_ms: 100,
            block_processor_threshold: 1000,
            min_protocol_version: 0x12,
            max_requests: 1024,
            optimistic_request_percentage: 75,
            max_pending_frontier_responses: 16,
            account_sets: AccountSetsConfig::default(),
        }
    }
}

/// The `account_sets` part of the `bootstrap_ascending` TOML section. The cooldown is in
/// milliseconds.
#[derive(Clone, Copy, Debug, PartialEq, Eq)]
pub struct AccountSetsToml {
    pub consideration_count: Option<usize>,
    pub priorities_max: Option<usize>,
    pub blocking_max: Option<usize>,
    pub cooldown: Option<u64>,
}

impl AccountSetsToml {
    pub open spec fn spec_of(c: AccountSetsConfig) -> Self {
        AccountSetsToml {
            consideration_count: Some(c.consideration_count),
            priorities_max: Some(c.priorities_max),
            blocking_max: Some(c.blocking_max),
            cooldown: Some(c.cooldown_ms),
        }
    }

    /// The section that sets every limit of the configuration.
    pub fn from_config(c: &AccountSetsConfig) -> (r: Self)
        ensures
            r == Self::spec_of(*c),
    {
        AccountSetsToml {
            consideration_count: Some(c.consideration_count),
            priorities_max: Some(c.priorities_max),
            blocking_max: Some(c.blocking_max),
            cooldown: Some(c.cooldown_ms),
        }
    }

    /// The limits this section describes; those it leaves out take their defaults.
    pub open spec fn spec_to_config(self) -> AccountSetsConfig {
        let d = AccountSetsConfig::spec_default();
        AccountSetsConfig {
            consideration_count: match self.consideration_count { Some(v) => v, None => d.consideration_count },
            priorities_max: match self.priorities_max { Some(v) => v, None => d.priorities_max },
            blocking_max: match self.blocking_max { Some(v) => v, None => d.blocking_max },
            cooldown_ms: match self.cooldown { Some(v) => v, None => d.cooldown_ms },
        }
    }

    pub fn to_config(&self) -> (r: AccountSetsConfig)
        ensures
            r == self.spec_to_config(),
    {
        let d = AccountSetsConfig::default();
        AccountSetsConfig {
            consideration_count: match self.consideration_count { Some(v) => v, None => d.consideration_count },
            priorities_max: match self.priorities_max { Some(v) => v, None => d.priorities_max },
            blocking_max: match self.blocking_max { Some(v) => v, None => d.blocking_max },
            cooldown_ms: match self.cooldown { Some(v) => v, None => d.cooldown_ms },
        }
    }
}

/// The `bootstrap_ascending` TOML section. Durations are in milliseconds.
#[derive(Clone, Copy, Debug, PartialEq, Eq)]
pub struct BootstrapAscendingToml {
    pub enable: Option<bool>,
    pub enable_databaser_scan: Option<bool>,
    pub enable_dependency_walker: Option<bool>,
    pub block_processor_threshold: Option<usize>,
    pub database_rate_limit: Option<usize>,
    pub database_warmup_ratio: Option<usize>,
    pub max_pull_count: Option<u8>,
    pub channel_limit: Option<usize>,
    pub throttle_coefficient: Option<usize>,
    pub throttle_wait: Option<u64>,
    pub request_timeout: Option<u64>,
    pub max_requests: Option<usize>,
    pub account_sets: Option<AccountSetsToml>,
}

/// `c` with the values the section sets.
pub open spec fn bootstrap_after_toml(c: BootstrapConfig, t: BootstrapAscendingToml) -> BootstrapConfig {
    BootstrapConfig {
        enable: match t.enable { Some(v) => v, None => c.enable },
        enable_database_scan: match t.enable_databaser_scan { Some(v) => v, None => c.enable_database_scan },
        enable_dependency_walker: match t.enable_dependency_walker { Some(v) => v, None => c.enable_dependency_walker },
        block_processor_threshold: match t.block_processor_threshold { Some(v) => v, None => c.block_processor_threshold },
        database_rate_limit: match t.database_rate_limit { Some(v) => v, None => c.database_rate_limit },
        database_warmup_ratio: match t.database_warmup_ratio { Some(v) => v, None => c.database_warmup_ratio },
        max_pull_count: match t.max_pull_count { Some(v) => v, None => c.max_pull_count },
        channel_limit: match t.channel_limit { Some(v) => v, None => c.channel_limit },
        throttle_coefficient: match t.throttle_coefficient { Some(v) => v, None => c.throttle_coefficient },
        throttle_wait_ms: match t.throttle_wait { Some(v) => v, None => c.throttle_wait_ms },
        request_timeout_ms: match t.request_timeout { Some(v) => v, None => c.request_timeout_ms },
        max_requests: match t.max_requests { Some(v) => v, None => c.max_requests },
        account_sets: match t.account_sets { Some(a) => a.spec_to_config(), None => c.account_sets },
        ..c
    }
}

/// The settings the `bootstrap_ascending` section covers are the same.
pub open spec fn same_bootstrap_toml_settings(a: BootstrapConfig, b: BootstrapConfig) -> bool {
    &&& a.enable == b.enable
    &&& a.enable_database_scan == b.enable_database_scan
    &&& a.enable_dependency_walker == b.enable_dependency_walker
    &&& a.block_processor_threshold == b.block_processor_threshold
    &&& a.database_rate_limit == b.database_rate_limit
    &&& a.database_warmup_ratio == b.database_warmup_ratio
    &&& a.max_pull_count == b.max_pull_count
    &&& a.channel_limit == b.channel_limit
    &&& a.throttle_coefficient == b.throttle_coefficient
    &&& a.throttle_wait_ms == b.throttle_wait_ms
    &&& a.request_timeout_ms == b.request_timeout_ms
    &&& a.max_requests == b.max_requests
    &&& a.account_sets == b.account_sets
}

/// The settings the `bootstrap_ascending` section does not cover are the same.
pub open spec fn same_bootstrap_other_settings(a: BootstrapConfig, b: BootstrapConfig) -> bool {
    &&& a.enable_priorities == b.enable_priorities
    &&& a.enable_frontier_scan == b.enable_frontier_scan
    &&& a.rate_limit == b.rate_limit
    &&& a.frontier_rate_limit == b.frontier_rate_limit
    &&& a.min_protocol_version == b.min_protocol_version
    &&& a.optimistic_request_percentage == b.optimistic_request_percentage
    &&& a.max_pending_frontier_responses == b.max_pending_frontier_responses
}

impl BootstrapAscendingToml {
    pub open spec fn spec_of(c: BootstrapConfig) -> Self {
        BootstrapAscendingToml {
            enable: Some(c.enable),
            enable_databaser_scan: Some(c.enable_database_scan),
            enable_dependency_walker: Some(c.enable_dependency_walker),
            block_processor_threshold: Some(c.block_processor_threshold),
            database_rate_limit: Some(c.database_rate_limit),
            database_warmup_ratio: Some(c.database_warmup_ratio),
            max_pull_count: Some(c.max_pull_count),
            channel_limit: Some(c.channel_limit),
            throttle_coefficient: Some(c.throttle_coefficient),
            throttle_wait: Some(c.throttle_wait_ms),
            request_timeout: Some(c.request_timeout_ms),
            max_requests: Some(c.max_requests),
            account_sets: Some(AccountSetsToml::spec_of(c.account_sets)),
        }
    }

    /// The section that sets every value it covers to the configuration's.
    pub fn from_config(c: &BootstrapConfig) -> (r: Self)
        ensures
            r == Self::spec_of(*c),
    {
        BootstrapAscendingToml {
            enable: Some(c.enable),
            enable_databaser_scan: Some(c.enable_database_scan),
            enable_dependency_walker: Some(c.enable_dependency_walker),
            block_processor_threshold: Some(c.block_processor_threshold),
            database_rate_limit: Some(c.database_rate_limit),
            database_warmup_ratio: Some(c.database_warmup_ratio),
            max_pull_count: Some(c.max_pull_count),
            channel_limit: Some(c.channel_limit),
            throttle_coefficient: Some(c.throttle_coefficient),
            throttle_wait: Some(c.throttle_wait_ms),
            request_timeout: Some(c.request_timeout_ms),
            max_requests: Some(c.max_requests),
            account_sets: Some(AccountSetsToml::from_config(&c.account_sets)),
        }
    }
}

impl BootstrapConfig {
    /// Overrides the values the section sets; an `account_sets` part replaces the account
    /// set limits (the limits it leaves out take their defaults).
    pub fn merge_toml(&mut self, t: &BootstrapAscendingToml)
        ensures
            *final(self) == bootstrap_after_toml(*old(self), *t),
    {
        let account_sets = match &t.account_sets {
            Some(a) => a.to_config(),
            None => self.account_sets,
        };
        *self = BootstrapConfig {
            enable: match t.enable { Some(v) => v, None => self.enable },
            enable_database_scan: match t.enable_databaser_scan { Some(v) => v, None => self.enable_database_scan },
            enable_dependency_walker: match t.enable_dependency_walker { Some(v) => v, None => self.enable_dependency_walker },
            block_processor_threshold: match t.block_processor_threshold { Some(v) => v, None => self.block_processor_threshold },
            database_rate_limit: match t.database_rate_limit { Some(v) => v, None => self.database_rate_limit },
            database_warmup_ratio: match t.database_warmup_ratio { Some(v) => v, None => self.database_warmup_ratio },
            max_pull_count: match t.max_pull_count { Some(v) => v, None => self.max_pull_count },
            channel_limit: match t.channel_limit { Some(v) => v, None => self.channel_limit },
            throttle_coefficient: match t.throttle_coefficient { Some(v) => v, None => self.throttle_coefficient },
            throttle_wait_ms: match t.throttle_wait { Some(v) => v, None => self.throttle_wait_ms },
            request_timeout_ms: match t.request_timeout { Some(v) => v, None => self.request_timeout_ms },
            max_requests: match t.max_requests { Some(v) => v, None => self.max_requests },
            account_sets,
            ..*self
        };
    }
}

/// Reading an optimistic scheduler section that was made from a configuration gives back
/// that configuration, whatever it is read onto.
pub proof fn lemma_optimistic_toml_round_trip(base: OptimisticSchedulerConfig, c: OptimisticSchedulerConfig)
    ensures
        ({
            let t = OptimisticSchedulerToml { enable: Some(c.enabled), gap_threshold: Some(c.gap_threshold), max_size: Some(c.max_size) };
            OptimisticSchedulerConfig {
                enabled: match t.enable { Some(v) => v, None => base.enabled },
                gap_threshold: match t.gap_threshold { Some(v) => v, None => base.gap_threshold },
                max_size: match t.max_size { Some(v) => v, None => base.max_size },
            } == c
        }),
{
}

} // verus!
