//! The node's configuration and its defaults for each network. Amounts are in raw,
//! durations in milliseconds unless a field's name says otherwise.

use vstd::prelude::*;
use vstd::string::StringExecFns;
use rand::Rng;
use crate::active_elections::ActiveElectionsConfig;
use crate::amount_text::{amount_of_text, decimal_digits, decode_dec, encode_dec, lemma_decimal_round_trip};
use crate::config::{
    bootstrap_after_toml, same_bootstrap_other_settings, same_bootstrap_toml_settings, BacklogPopulationConfig, BacklogPopulationToml, BootstrapAscendingToml, BootstrapConfig,
    BootstrapServerConfig, HintedSchedulerConfig, HintedSchedulerToml, HttpcallbackToml, MessageProcessorConfig,
    MessageProcessorToml, MonitorConfig, Networks, OptimisticSchedulerConfig, OptimisticSchedulerToml, RepCrawlerToml,
    AccountSetsToml, RequestAggregatorConfig, RequestAggregatorToml, TcpConfig, VoteProcessorConfig, VoteProcessorToml, WebsocketConfig,
    WebsocketToml,
};
use crate::numbers::{Account, PublicKey};
use crate::vote_cache::VoteCacheConfig;

verus! {

/// Raw units in the network's main unit (one BAN is 10^29 raw).
pub const NANO_RAW: u128 = 100_000_000_000_000_000_000_000_000_000;

/// Raw units in a millionth of the main unit.
pub const MICRONANO_RAW: u128 = 100_000_000_000_000_000_000_000;

/// A peer given by host name or address, and port.
#[derive(Clone, Debug, PartialEq, Eq)]
pub struct Peer {
    pub address: String,
    pub port: u16,
}

/// The peers a live node starts from, by address (IPv6-mapped when IPv4 is unavailable).
pub open spec fn live_peer_hosts(ipv4: bool) -> Seq<Seq<char>> {
    if ipv4 {
        seq![
            "37.27.80.228"@, "51.15.5.35"@, "51.15.19.228"@, "129.151.163.96"@, "103.77.242.225"@,
            "167.86.102.138"@, "188.251.33.45"@, "72.86.43.83"@, "204.13.115.218"@, "23.88.62.227"@,
        ]
    } else {
        seq![
            "[::ffff:37.27.80.228]"@, "[::ffff:51.15.5.35]"@, "[::ffff:51.15.19.228]"@,
            "[::ffff:129.151.163.96]"@, "[::ffff:103.77.242.225]"@, "[::ffff:167.86.102.138]"@,
            "[::ffff:188.251.33.45]"@, "[::ffff:72.86.43.83]"@, "[::ffff:204.13.115.218]"@,
            "[::ffff:23.88.62.227]"@,
        ]
    }
}

/// The host of the default peer of the beta or test network: the override when one is
/// given, else the network's own.
pub open spec fn default_peer_host(network: Networks, host_override: Option<Seq<char>>) -> Seq<char> {
    match host_override {
        Some(h) => h,
        None => if network == Networks::NanoBetaNetwork { "livenet-beta.banano.cc"@ } else { "peering-test.nano.org"@ },
    }
}

/// The view of an optional host.
pub open spec fn host_view(host: Option<String>) -> Option<Seq<char>> {
    match host { Some(h) => Some(h@), None => None }
}

/// The hosts a node of `network` starts from.
pub open spec fn preconfigured_hosts(network: Networks, ipv4: bool, host_override: Option<Seq<char>>) -> Seq<Seq<char>> {
    match network {
        Networks::NanoLiveNetwork => live_peer_hosts(ipv4),
        Networks::NanoBetaNetwork | Networks::NanoTestNetwork => seq![default_peer_host(network, host_override)],
        _ => Seq::empty(),
    }
}

/// The larger of two counts.
pub open spec fn larger(a: usize, b: usize) -> usize {
    if a > b { a } else { b }
}

/// The node's configuration.
#[derive(Clone, Debug, PartialEq, Eq)]
pub struct NodeConfig {
    pub default_peering_port: u16,
    /// The port the node listens on (zero lets the system pick one).
    pub listening_port: u16,
    pub enable_opencl: bool,
    pub enable_voting: bool,
    pub enable_vote_processor: bool,
    pub enable_priority_scheduler: bool,
    pub enable_optimistic_scheduler: bool,
    pub enable_hinted_scheduler: bool,
    pub enable_monitor: bool,
    pub enable_bounded_backlog: bool,
    pub enable_vote_rebroadcast: bool,
    pub enable_bootstrap_responder: bool,
    pub hinted_scheduler: HintedSchedulerConfig,
    pub bootstrap_fraction_numerator: u32,
    pub receive_minimum: u128,
    pub online_weight_minimum: u128,
    /// The minimum weight a representative needs for its votes to count.
    pub representative_vote_weight_minimum: u128,
    pub password_fanout: u32,
    pub io_threads: usize,
    pub network_threads: u32,
    pub work_threads: u32,
    pub background_threads: u32,
    pub signature_checker_threads: u32,
    pub bootstrap_initiator_threads: u32,
    pub bootstrap_serving_threads: u32,
    pub allow_local_peers: bool,
    pub vote_minimum: u128,
    pub vote_generator_delay_ms: u64,
    pub unchecked_cutoff_time_s: i64,
    pub pow_sleep_interval_ns: i64,
    pub external_address: String,
    pub external_port: u16,
    pub use_memory_pools: bool,
    pub bootstrap: BootstrapConfig,
    pub bootstrap_server: BootstrapServerConfig,
    pub confirming_set_batch_time_ms: u64,
    pub backup_before_upgrade: bool,
    pub max_queued_requests: u32,
    pub request_aggregator_threads: u32,
    pub max_unchecked_blocks: u32,
    pub rep_crawler_weight_minimum: u128,
    pub work_peers: Vec<Peer>,
    pub secondary_work_peers: Vec<Peer>,
    pub preconfigured_peers: Vec<Peer>,
    pub preconfigured_representatives: Vec<PublicKey>,
    pub max_pruning_age_s: i64,
    pub max_pruning_depth: u64,
    pub callback_address: String,
    pub callback_port: u16,
    pub callback_target: String,
    pub vote_cache: VoteCacheConfig,
    pub rep_crawler_query_timeout_ms: u64,
    pub block_processor_threads: usize,
    pub active_elections: ActiveElectionsConfig,
    pub tcp: TcpConfig,
    pub monitor: MonitorConfig,
    pub network_duplicate_filter_size: usize,
    pub network_duplicate_filter_cutoff: u64,
    /// Maximum number of confirmed elections remembered.
    pub confirmation_history_size: usize,
    pub cps_limit: u32,
    pub optimistic_scheduler: OptimisticSchedulerConfig,
    pub websocket_config: WebsocketConfig,
    pub vote_processor: VoteProcessorConfig,
    pub request_aggregator: RequestAggregatorConfig,
    pub message_processor: MessageProcessorConfig,
    pub backlog: BacklogPopulationConfig,
    pub priority_bucket: PriorityBucketConfig,
    pub block_processor: BlockProcessorConfig,
    /// Most forks remembered, and most forks remembered per root.
    pub fork_cache_max_size: usize,
    pub fork_cache_max_forks_per_root: usize,
    /// How long an election may go without progress before bootstrapping it is considered.
    pub bootstrap_stale_threshold_ms: u64,
}

/// Limits of each bucket of the priority scheduler.
#[derive(Clone, Copy, Debug, PartialEq, Eq)]
pub struct PriorityBucketConfig {
    pub max_blocks: usize,
    pub max_elections: usize,
    pub reserved_elections: usize,
}

/// Queue sizes and source priorities of the block processor.
#[derive(Clone, Copy, Debug, PartialEq, Eq)]
pub struct BlockProcessorConfig {
    pub max_peer_queue: usize,
    pub max_system_queue: usize,
    pub priority_live: usize,
    pub priority_bootstrap: usize,
    pub priority_local: usize,
}

/// The `priority_bucket` TOML section.
#[derive(Clone, Copy, Debug, PartialEq, Eq)]
pub struct PriorityBucketToml {
    pub max_blocks: Option<usize>,
    pub max_elections: Option<usize>,
    pub reserved_elections: Option<usize>,
}

/// The `block_processor` TOML section.
#[derive(Clone, Copy, Debug, PartialEq, Eq)]
pub struct BlockProcessorToml {
    pub max_peer_queue: Option<usize>,
    pub max_system_queue: Option<usize>,
    pub priority_live: Option<usize>,
    pub priority_bootstrap: Option<usize>,
    pub priority_local: Option<usize>,
}

/// The settings of the node's components whose defaults those components define
/// themselves (they depend on the network and the machine's parallelism).
#[derive(Clone, Debug, PartialEq, Eq)]
pub struct ComponentConfigs {
    pub optimistic_scheduler: OptimisticSchedulerConfig,
    pub websocket: WebsocketConfig,
    pub vote_processor: VoteProcessorConfig,
    pub request_aggregator: RequestAggregatorConfig,
    pub message_processor: MessageProcessorConfig,
    pub priority_bucket: PriorityBucketConfig,
    pub block_processor: BlockProcessorConfig,
    pub fork_cache_max_size: usize,
    pub fork_cache_max_forks_per_root: usize,
    pub bootstrap_stale_threshold_ms: u64,
}

/// Peers at the given hosts, all on `port`.
fn peers_at(hosts: &Vec<&str>, port: u16) -> (r: Vec<Peer>)
    ensures
        r@.len() == hosts@.len(),
        forall|i: int| 0 <= i < r@.len() ==> (#[trigger] r@[i]).address@ == hosts@[i]@ && r@[i].port == port,
{
    let mut r: Vec<Peer> = Vec::new();
    let mut i: usize = 0;
    while i < hosts.len()
        invariant
            i <= hosts@.len(),
            r@.len() == i,
            forall|j: int| 0 <= j < i ==> (#[trigger] r@[j]).address@ == hosts@[j]@ && r@[j].port == port,
        decreases hosts@.len() - i,
    {
        r.push(Peer { address: String::from_str(hosts[i]), port });
        i = i + 1;
    }
    r
}

/// `rand::rng().random_range(0..len)`: an index below `len` picked by the thread-local
/// random generator. Which one is not promised.
#[verifier::external_body]
fn random_index(len: usize) -> (r: usize)
    requires
        len > 0,
    ensures
        r < len,
{
    rand::rng().random_range(0..len)
}

impl NodeConfig {
    /// The defaults of a node on `network`, given the network's default port and genesis
    /// account, whether the machine has IPv4, a host replacing the beta or test network's
    /// default peer, and the machine's parallelism.
    pub fn new(
        peering_port: Option<u16>,
        network: Networks,
        default_node_port: u16,
        genesis_account: Account,
        beta_default_representative: PublicKey,
        ipv4: bool,
        peer_host_override: &Option<String>,
        parallelism: usize,
        components: ComponentConfigs,
    ) -> (r: Self)
        requires
            network != Networks::Invalid,
        ensures
            r.optimistic_scheduler == components.optimistic_scheduler,
            r.websocket_config.enabled == components.websocket.enabled,
            r.websocket_config.port == components.websocket.port,
            r.websocket_config.address@ == components.websocket.address@,
            r.vote_processor == components.vote_processor,
            r.request_aggregator == components.request_aggregator,
            r.message_processor == components.message_processor,
            r.priority_bucket == components.priority_bucket,
            r.block_processor == components.block_processor,
            r.fork_cache_max_size == components.fork_cache_max_size,
            r.fork_cache_max_forks_per_root == components.fork_cache_max_forks_per_root,
            r.bootstrap_stale_threshold_ms == components.bootstrap_stale_threshold_ms,
            r.backlog.enabled && r.backlog.batch_size == 10 * 1000 && r.backlog.frequency == 10,
            r.default_peering_port == default_node_port,
            r.listening_port == (match peering_port { Some(p) => p, None => 0 }),
            r.enable_voting == (network == Networks::NanoDevNetwork),
            r.preconfigured_peers@.len()
                == preconfigured_hosts(network, ipv4, host_view(*peer_host_override)).len(),
            forall|i: int| 0 <= i < r.preconfigured_peers@.len() ==> {
                &&& (#[trigger] r.preconfigured_peers@[i]).address@
                    == preconfigured_hosts(network, ipv4, host_view(*peer_host_override))[i]
                &&& r.preconfigured_peers@[i].port == default_node_port
            },
            r.preconfigured_representatives@ == (if network == Networks::NanoBetaNetwork {
                seq![beta_default_representative]
            } else {
                seq![genesis_account]
            }),
            !r.enable_opencl,
            r.enable_vote_processor && r.enable_priority_scheduler && r.enable_optimistic_scheduler,
            r.enable_hinted_scheduler && r.enable_monitor && r.enable_bounded_backlog,
            r.enable_vote_rebroadcast && r.enable_bootstrap_responder,
            r.bootstrap_fraction_numerator == 1,
            r.receive_minimum == MICRONANO_RAW,
            r.online_weight_minimum == 60_000_000 * NANO_RAW,
            r.representative_vote_weight_minimum == 10 * NANO_RAW,
            r.password_fanout == 1024,
            r.io_threads == larger(parallelism, 4),
            r.network_threads == larger(parallelism, 4) as u32,
            r.work_threads == larger(parallelism, 4) as u32,
            r.background_threads == larger(parallelism, 4) as u32,
            r.signature_checker_threads == (parallelism / 2) as u32,
            r.bootstrap_initiator_threads == 1,
            r.bootstrap_serving_threads == 1,
            r.allow_local_peers == !(network == Networks::NanoLiveNetwork || network == Networks::NanoTestNetwork),
            r.vote_minimum == 1000 * NANO_RAW,
            r.vote_generator_delay_ms == 100,
            r.unchecked_cutoff_time_s == 4 * 60 * 60,
            r.pow_sleep_interval_ns == 0,
            r.external_address@ == "::"@,
            r.external_port == 0,
            r.use_memory_pools,
            r.bootstrap == BootstrapConfig::spec_default(),
            r.bootstrap_server == BootstrapServerConfig::spec_default(),
            r.confirming_set_batch_time_ms == 250,
            !r.backup_before_upgrade,
            r.max_queued_requests == 512,
            r.request_aggregator_threads == larger(parallelism, 4) as u32,
            r.max_unchecked_blocks == 65536,
            r.rep_crawler_weight_minimum == u128::MAX,
            r.work_peers@.len() == 0,
            r.secondary_work_peers@.len() == 1,
            r.secondary_work_peers@[0].address@ == "127.0.0.1"@,
            r.secondary_work_peers@[0].port == 8076,
            r.max_pruning_age_s == (if network == Networks::NanoBetaNetwork { 5 * 60 } else { 24 * 60 * 60 }),
            r.max_pruning_depth == 0,
            r.callback_address@.len() == 0,
            r.callback_port == 0,
            r.callback_target@.len() == 0,
            r.vote_cache == VoteCacheConfig::spec_default(),
            r.rep_crawler_query_timeout_ms == (if network == Networks::NanoDevNetwork { 1000u64 } else { 60_000u64 }),
            r.block_processor_threads == larger(2, parallelism / 2),
            r.active_elections == ActiveElectionsConfig::spec_default(),
            r.hinted_scheduler == (if network == Networks::NanoDevNetwork {
                HintedSchedulerConfig::spec_default_for_dev_network()
            } else {
                HintedSchedulerConfig::spec_default()
            }),
            r.tcp == (if network == Networks::NanoDevNetwork { TcpConfig::spec_for_dev_network() } else { TcpConfig::spec_default() }),
            r.monitor == MonitorConfig::spec_default(),
            r.network_duplicate_filter_size == 1024 * 1024,
            r.network_duplicate_filter_cutoff == 60,
            r.confirmation_history_size == 2048,
            r.cps_limit == 0,
    {
        let ghost host_override = host_view(*peer_host_override);
        let (preconfigured_peers, representative) = match network {
            Networks::NanoDevNetwork => (Vec::new(), genesis_account),
            Networks::NanoBetaNetwork | Networks::NanoTestNetwork => {
                let host = match peer_host_override {
                    Some(h) => h.clone(),
                    None => if network == Networks::NanoBetaNetwork {
                        String::from_str("livenet-beta.banano.cc")
                    } else {
                        String::from_str("peering-test.nano.org")
                    },
                };
                proof {
                    reveal_strlit("livenet-beta.banano.cc");
                    reveal_strlit("peering-test.nano.org");
                }
                let mut peers = Vec::new();
                peers.push(Peer { address: host, port: default_node_port });
                assert(peers@[0].address@ == preconfigured_hosts(network, ipv4, host_override)[0]);
                (peers, if network == Networks::NanoBetaNetwork { beta_default_representative } else { genesis_account })
            },
            _ => {
                let hosts: Vec<&str> = if !ipv4 {
                    vec![
                        "[::ffff:37.27.80.228]", "[::ffff:51.15.5.35]", "[::ffff:51.15.19.228]",
                        "[::ffff:129.151.163.96]", "[::ffff:103.77.242.225]", "[::ffff:167.86.102.138]",
                        "[::ffff:188.251.33.45]", "[::ffff:72.86.43.83]", "[::ffff:204.13.115.218]",
                        "[::ffff:23.88.62.227]",
                    ]
                } else {
                    vec![
                        "37.27.80.228", "51.15.5.35", "51.15.19.228", "129.151.163.96", "103.77.242.225",
                        "167.86.102.138", "188.251.33.45", "72.86.43.83", "204.13.115.218", "23.88.62.227",
                    ]
                };
                let peers = peers_at(&hosts, default_node_port);
                assert forall|i: int| 0 <= i < peers@.len() implies
                    (#[trigger] peers@[i]).address@ == live_peer_hosts(ipv4)[i] by {
                    assert(hosts@[i]@ == live_peer_hosts(ipv4)[i]);
                }
                (peers, genesis_account)
            },
        };
        let mut preconfigured_representatives = Vec::new();
        preconfigured_representatives.push(representative);
        let dev = network == Networks::NanoDevNetwork;
        let threads = if parallelism > 4 { parallelism } else { 4 };
        let half = parallelism / 2;
        let mut secondary_work_peers = Vec::new();
        secondary_work_peers.push(Peer { address: String::from_str("127.0.0.1"), port: 8076 });
        NodeConfig {
            default_peering_port: default_node_port,
            listening_port: match peering_port { Some(p) => p, None => 0 },
            enable_opencl: false,
            enable_voting: dev,
            enable_vote_processor: true,
            enable_priority_scheduler: true,
            enable_optimistic_scheduler: true,
            enable_hinted_scheduler: true,
            enable_monitor: true,
            enable_bounded_backlog: true,
            enable_vote_rebroadcast: true,
            enable_bootstrap_responder: true,
            hinted_scheduler: if dev { HintedSchedulerConfig::default_for_dev_network() } else { HintedSchedulerConfig::default() },
            bootstrap_fraction_numerator: 1,
            receive_minimum: MICRONANO_RAW,
            online_weight_minimum: 60_000_000 * NANO_RAW,
            representative_vote_weight_minimum: 10 * NANO_RAW,
            password_fanout: 1024,
            io_threads: threads,
            network_threads: threads as u32,
            work_threads: threads as u32,
            background_threads: threads as u32,
            signature_checker_threads: half as u32,
            bootstrap_initiator_threads: 1,
            bootstrap_serving_threads: 1,
            allow_local_peers: !(network == Networks::NanoLiveNetwork || network == Networks::NanoTestNetwork),
            vote_minimum: 1000 * NANO_RAW,
            vote_generator_delay_ms: 100,
            unchecked_cutoff_time_s: 4 * 60 * 60,
            pow_sleep_interval_ns: 0,
            external_address: String::from_str("::"),
            external_port: 0,
            use_memory_pools: true,
            bootstrap: BootstrapConfig::default(),
            bootstrap_server: BootstrapServerConfig::default(),
            confirming_set_batch_time_ms: 250,
            backup_before_upgrade: false,
            max_queued_requests: 512,
            request_aggregator_threads: threads as u32,
            max_unchecked_blocks: 65536,
            rep_crawler_weight_minimum: u128::MAX,
            work_peers: Vec::new(),
            secondary_work_peers,
            preconfigured_peers,
            preconfigured_representatives,
            max_pruning_age_s: if network == Networks::NanoBetaNetwork { 5 * 60 } else { 24 * 60 * 60 },
            max_pruning_depth: 0,
            callback_address: String::new(),
            callback_port: 0,
            callback_target: String::new(),
            vote_cache: VoteCacheConfig::default(),
            rep_crawler_query_timeout_ms: if dev { 1000 } else { 60_000 },
            block_processor_threads: if half > 2 { half } else { 2 },
            active_elections: ActiveElectionsConfig::default(),
            tcp: if dev { TcpConfig::for_dev_network() } else { TcpConfig::default() },
            monitor: MonitorConfig::default(),
            network_duplicate_filter_size: 1024 * 1024,
            network_duplicate_filter_cutoff: 60,
            confirmation_history_size: 2048,
            cps_limit: 0,
            optimistic_scheduler: components.optimistic_scheduler,
            websocket_config: components.websocket,
            vote_processor: components.vote_processor,
            request_aggregator: components.request_aggregator,
            message_processor: components.message_processor,
            backlog: BacklogPopulationConfig::default(),
            priority_bucket: components.priority_bucket,
            block_processor: components.block_processor,
            fork_cache_max_size: components.fork_cache_max_size,
            fork_cache_max_forks_per_root: components.fork_cache_max_forks_per_root,
            bootstrap_stale_threshold_ms: components.bootstrap_stale_threshold_ms,
        }
    }
}


/// The node's TOML document. Sections are optional; so is each value. Amounts are decimal
/// text in raw; durations are in milliseconds unless a field's doc says otherwise. It does
/// not hold the peer lists, the work peers or the preconfigured representatives.
#[derive(Clone, Debug, PartialEq, Eq)]
pub struct NodeToml {
    pub allow_local_peers: Option<bool>,
    pub background_threads: Option<u32>,
    pub backup_before_upgrade: Option<bool>,
    pub bootstrap_fraction_numerator: Option<u32>,
    pub bootstrap_initiator_threads: Option<u32>,
    pub bootstrap_serving_threads: Option<u32>,
    pub confirming_set_batch_time: Option<u64>,
    pub enable_voting: Option<bool>,
    pub external_address: Option<String>,
    pub external_port: Option<u16>,
    pub io_threads: Option<u32>,
    pub max_queued_requests: Option<u32>,
    pub max_unchecked_blocks: Option<u32>,
    pub network_threads: Option<u32>,
    pub online_weight_minimum: Option<String>,
    pub password_fanout: Option<u32>,
    pub peering_port: Option<u16>,
    pub pow_sleep_interval: Option<i64>,
    pub receive_minimum: Option<String>,
    pub rep_crawler_weight_minimum: Option<String>,
    pub representative_vote_weight_minimum: Option<String>,
    pub request_aggregator_threads: Option<u32>,
    pub signature_checker_threads: Option<u32>,
    pub unchecked_cutoff_time: Option<i64>,
    pub use_memory_pools: Option<bool>,
    pub vote_generator_delay: Option<u64>,
    pub vote_minimum: Option<String>,
    pub work_threads: Option<u32>,
    pub optimistic_scheduler: Option<OptimisticSchedulerToml>,
    pub hinted_scheduler: Option<HintedSchedulerToml>,
    pub bootstrap_ascending: Option<BootstrapAscendingToml>,
    pub httpcallback: Option<HttpcallbackToml>,
    pub rep_crawler: Option<RepCrawlerToml>,
    pub websocket: Option<WebsocketToml>,
    pub vote_processor: Option<VoteProcessorToml>,
    pub request_aggregator: Option<RequestAggregatorToml>,
    pub message_processor: Option<MessageProcessorToml>,
    pub backlog_population: Option<BacklogPopulationToml>,
    pub vote_cache: Option<VoteCacheToml>,
    pub active_elections: Option<ActiveElectionsToml>,
    pub monitor: Option<MonitorToml>,
    pub bootstrap_server: Option<BootstrapServerToml>,
    pub priority_bucket: Option<PriorityBucketToml>,
    pub block_processor: Option<BlockProcessorToml>,
}

/// The `vote_cache` TOML section.
#[derive(Clone, Copy, Debug, PartialEq, Eq)]
pub struct VoteCacheToml {
    pub max_size: Option<usize>,
    pub max_voters: Option<usize>,
    /// In seconds.
    pub age_cutoff: Option<u64>,
}

/// The `active_elections` TOML section.
#[derive(Clone, Copy, Debug, PartialEq, Eq)]
pub struct ActiveElectionsToml {
    pub size: Option<usize>,
    pub hinted_limit_percentage: Option<usize>,
    pub optimistic_limit_percentage: Option<usize>,
    pub confirmation_history_size: Option<usize>,
    pub confirmation_cache: Option<usize>,
}

/// The `monitor` TOML section.
#[derive(Clone, Copy, Debug, PartialEq, Eq)]
pub struct MonitorToml {
    pub enable: Option<bool>,
    /// In seconds.
    pub interval: Option<u64>,
}

/// The `bootstrap_server` TOML section.
#[derive(Clone, Copy, Debug, PartialEq, Eq)]
pub struct BootstrapServerToml {
    pub max_queue: Option<usize>,
    pub threads: Option<usize>,
    pub batch_size: Option<usize>,
}

/// Seconds as milliseconds, saturating at `u64::MAX`.
pub open spec fn seconds_as_ms(s: u64) -> u64 {
    if s <= u64::MAX / 1000 { (s * 1000) as u64 } else { u64::MAX }
}

fn seconds_to_ms(s: u64) -> (r: u64)
    ensures
        r == seconds_as_ms(s),
{
    if s <= u64::MAX / 1000 { s * 1000 } else { u64::MAX }
}

/// An amount given as text is valid when it reads as an amount.
pub open spec fn amount_valid(text: Option<String>) -> bool {
    text matches Some(t) ==> amount_of_text(t@) is Some
}

/// The amount the text gives, or `current` when there is no text.
pub open spec fn amount_or(text: Option<String>, current: u128) -> u128 {
    match text {
        Some(t) => amount_of_text(t@).unwrap(),
        None => current,
    }
}

/// Every amount the document gives reads as an amount.
pub open spec fn amounts_valid(toml: NodeToml) -> bool {
    &&& amount_valid(toml.online_weight_minimum)
    &&& amount_valid(toml.receive_minimum)
    &&& amount_valid(toml.representative_vote_weight_minimum)
    &&& amount_valid(toml.vote_minimum)
    &&& amount_valid(toml.rep_crawler_weight_minimum)
}

/// What merging `toml` into `old` gives, field by field; fields the document does not
/// cover stay as they were.
pub open spec fn merged(old: NodeConfig, toml: NodeToml, new: NodeConfig) -> bool {
    &&& scalars_merged(old, toml, new)
    &&& amounts_merged(old, toml, new)
    &&& sections_merged(old, toml, new)
    &&& uncovered_unchanged(old, new)
}

/// The single settings the document sets replace those of `old`.
pub open spec fn scalars_merged(old: NodeConfig, toml: NodeToml, new: NodeConfig) -> bool {
    &&& new.allow_local_peers == (match toml.allow_local_peers { Some(v) => v, None => old.allow_local_peers })
    &&& new.background_threads == (match toml.background_threads { Some(v) => v, None => old.background_threads })
    &&& new.backup_before_upgrade == (match toml.backup_before_upgrade { Some(v) => v, None => old.backup_before_upgrade })
    &&& new.bootstrap_fraction_numerator == (match toml.bootstrap_fraction_numerator { Some(v) => v, None => old.bootstrap_fraction_numerator })
    &&& new.bootstrap_initiator_threads == (match toml.bootstrap_initiator_threads { Some(v) => v, None => old.bootstrap_initiator_threads })
    &&& new.bootstrap_serving_threads == (match toml.bootstrap_serving_threads { Some(v) => v, None => old.bootstrap_serving_threads })
    &&& new.confirming_set_batch_time_ms == (match toml.confirming_set_batch_time { Some(v) => v, None => old.confirming_set_batch_time_ms })
    &&& new.enable_voting == (match toml.enable_voting { Some(v) => v, None => old.enable_voting })
    &&& new.external_address@ == (match toml.external_address { Some(v) => v@, None => old.external_address@ })
    &&& new.external_port == (match toml.external_port { Some(v) => v, None => old.external_port })
    &&& new.io_threads == (match toml.io_threads { Some(v) => v as usize, None => old.io_threads })
    &&& new.max_queued_requests == (match toml.max_queued_requests { Some(v) => v, None => old.max_queued_requests })
    &&& new.max_unchecked_blocks == (match toml.max_unchecked_blocks { Some(v) => v, None => old.max_unchecked_blocks })
    &&& new.network_threads == (match toml.network_threads { Some(v) => v, None => old.network_threads })
    &&& new.password_fanout == (match toml.password_fanout { Some(v) => v, None => old.password_fanout })
    &&& new.listening_port == (match toml.peering_port { Some(v) => v, None => old.listening_port })
    &&& new.pow_sleep_interval_ns == (match toml.pow_sleep_interval { Some(v) => v, None => old.pow_sleep_interval_ns })
    &&& new.request_aggregator_threads == (match toml.request_aggregator_threads { Some(v) => v, None => old.request_aggregator_threads })
    &&& new.signature_checker_threads == (match toml.signature_checker_threads { Some(v) => v, None => old.signature_checker_threads })
    &&& new.unchecked_cutoff_time_s == (match toml.unchecked_cutoff_time { Some(v) => v, None => old.unchecked_cutoff_time_s })
    &&& new.use_memory_pools == (match toml.use_memory_pools { Some(v) => v, None => old.use_memory_pools })
    &&& new.vote_generator_delay_ms == (match toml.vote_generator_delay { Some(v) => v, None => old.vote_generator_delay_ms })
    &&& new.work_threads == (match toml.work_threads { Some(v) => v, None => old.work_threads })
}

/// The amounts the document gives, read from their text, replace those of `old`.
pub open spec fn amounts_merged(old: NodeConfig, toml: NodeToml, new: NodeConfig) -> bool {
    &&& new.online_weight_minimum == amount_or(toml.online_weight_minimum, old.online_weight_minimum)
    &&& new.receive_minimum == amount_or(toml.receive_minimum, old.receive_minimum)
    &&& new.representative_vote_weight_minimum == amount_or(toml.representative_vote_weight_minimum, old.representative_vote_weight_minimum)
    &&& new.vote_minimum == amount_or(toml.vote_minimum, old.vote_minimum)
    &&& new.rep_crawler_weight_minimum == amount_or(toml.rep_crawler_weight_minimum, old.rep_crawler_weight_minimum)
}

/// The sections the document holds adjust the settings they cover; a section's value
/// that is not given leaves the setting as it was, except in the `hinted_scheduler`
/// section and in the `account_sets` part of `bootstrap_ascending`, which replace their
/// settings as a whole.
pub open spec fn sections_merged(old: NodeConfig, toml: NodeToml, new: NodeConfig) -> bool {
    &&& new.hinted_scheduler == (match toml.hinted_scheduler {
        Some(h) => HintedSchedulerConfig::spec_from_toml(h),
        None => old.hinted_scheduler,
    })
    &&& new.callback_address@ == (match toml.httpcallback {
        Some(cb) => match cb.address { Some(a) => a@, None => old.callback_address@ },
        None => old.callback_address@,
    })
    &&& new.callback_port == (match toml.httpcallback {
        Some(cb) => match cb.port { Some(p) => p, None => old.callback_port },
        None => old.callback_port,
    })
    &&& new.callback_target@ == (match toml.httpcallback {
        Some(cb) => match cb.target { Some(t) => t@, None => old.callback_target@ },
        None => old.callback_target@,
    })
    &&& new.rep_crawler_query_timeout_ms == (match toml.rep_crawler {
        Some(rc) => match rc.query_timeout { Some(t) => t, None => old.rep_crawler_query_timeout_ms },
        None => old.rep_crawler_query_timeout_ms,
    })
    &&& components_merged(old, toml, new)
}

/// The sections of the node's components adjust their settings.
pub open spec fn components_merged(old: NodeConfig, toml: NodeToml, new: NodeConfig) -> bool {
    &&& new.optimistic_scheduler == (match toml.optimistic_scheduler {
        Some(o) => OptimisticSchedulerConfig {
            enabled: match o.enable { Some(v) => v, None => old.optimistic_scheduler.enabled },
            gap_threshold: match o.gap_threshold { Some(v) => v, None => old.optimistic_scheduler.gap_threshold },
            max_size: match o.max_size { Some(v) => v, None => old.optimistic_scheduler.max_size },
        },
        None => old.optimistic_scheduler,
    })
    &&& new.bootstrap == (match toml.bootstrap_ascending {
        Some(b) => bootstrap_after_toml(old.bootstrap, b),
        None => old.bootstrap,
    })
    &&& new.websocket_config.enabled == (match toml.websocket {
        Some(w) => match w.enable { Some(v) => v, None => old.websocket_config.enabled },
        None => old.websocket_config.enabled,
    })
    &&& new.websocket_config.port == (match toml.websocket {
        Some(w) => match w.port { Some(v) => v, None => old.websocket_config.port },
        None => old.websocket_config.port,
    })
    &&& new.websocket_config.address@ == (match toml.websocket {
        Some(w) => match w.address { Some(v) => v@, None => old.websocket_config.address@ },
        None => old.websocket_config.address@,
    })
    &&& new.vote_processor == (match toml.vote_processor {
        Some(v) => VoteProcessorConfig {
            max_pr_queue: match v.max_pr_queue { Some(x) => x, None => old.vote_processor.max_pr_queue },
            max_non_pr_queue: match v.max_non_pr_queue { Some(x) => x, None => old.vote_processor.max_non_pr_queue },
            pr_priority: match v.pr_priority { Some(x) => x, None => old.vote_processor.pr_priority },
            threads: match v.threads { Some(x) => x, None => old.vote_processor.threads },
            batch_size: match v.batch_size { Some(x) => x, None => old.vote_processor.batch_size },
        },
        None => old.vote_processor,
    })
    &&& new.request_aggregator == (match toml.request_aggregator {
        Some(v) => RequestAggregatorConfig {
            threads: match v.threads { Some(x) => x, None => old.request_aggregator.threads },
            max_queue: match v.max_queue { Some(x) => x, None => old.request_aggregator.max_queue },
            batch_size: match v.batch_size { Some(x) => x, None => old.request_aggregator.batch_size },
        },
        None => old.request_aggregator,
    })
    &&& new.message_processor == (match toml.message_processor {
        Some(v) => MessageProcessorConfig {
            threads: match v.threads { Some(x) => x, None => old.message_processor.threads },
            max_queue: match v.max_queue { Some(x) => x, None => old.message_processor.max_queue },
        },
        None => old.message_processor,
    })
    &&& new.vote_cache == (match toml.vote_cache {
        Some(v) => VoteCacheConfig {
            max_size: match v.max_size { Some(x) => x, None => old.vote_cache.max_size },
            max_voters: match v.max_voters { Some(x) => x, None => old.vote_cache.max_voters },
            age_cutoff_ms: match v.age_cutoff { Some(x) => seconds_as_ms(x), None => old.vote_cache.age_cutoff_ms },
        },
        None => old.vote_cache,
    })
    &&& new.active_elections == (match toml.active_elections {
        Some(v) => ActiveElectionsConfig {
            size: match v.size { Some(x) => x, None => old.active_elections.size },
            hinted_limit_percentage: match v.hinted_limit_percentage { Some(x) => x, None => old.active_elections.hinted_limit_percentage },
            optimistic_limit_percentage: match v.optimistic_limit_percentage { Some(x) => x, None => old.active_elections.optimistic_limit_percentage },
            confirmation_history_size: match v.confirmation_history_size { Some(x) => x, None => old.active_elections.confirmation_history_size },
            confirmation_cache: match v.confirmation_cache { Some(x) => x, None => old.active_elections.confirmation_cache },
            max_election_winners: old.active_elections.max_election_winners,
        },
        None => old.active_elections,
    })
    &&& new.monitor == (match toml.monitor {
        Some(v) => MonitorConfig {
            enabled: match v.enable { Some(x) => x, None => old.monitor.enabled },
            interval_ms: match v.interval { Some(x) => seconds_as_ms(x), None => old.monitor.interval_ms },
        },
        None => old.monitor,
    })
    &&& new.bootstrap_server == (match toml.bootstrap_server {
        Some(v) => BootstrapServerConfig {
            max_queue: match v.max_queue { Some(x) => x, None => old.bootstrap_server.max_queue },
            threads: match v.threads { Some(x) => x, None => old.bootstrap_server.threads },
            batch_size: match v.batch_size { Some(x) => x, None => old.bootstrap_server.batch_size },
        },
        None => old.bootstrap_server,
    })
    &&& new.priority_bucket == (match toml.priority_bucket {
        Some(v) => PriorityBucketConfig {
            max_blocks: match v.max_blocks { Some(x) => x, None => old.priority_bucket.max_blocks },
            max_elections: match v.max_elections { Some(x) => x, None => old.priority_bucket.max_elections },
            reserved_elections: match v.reserved_elections { Some(x) => x, None => old.priority_bucket.reserved_elections },
        },
        None => old.priority_bucket,
    })
    &&& new.block_processor == (match toml.block_processor {
        Some(v) => BlockProcessorConfig {
            max_peer_queue: match v.max_peer_queue { Some(x) => x, None => old.block_processor.max_peer_queue },
            max_system_queue: match v.max_system_queue { Some(x) => x, None => old.block_processor.max_system_queue },
            priority_live: match v.priority_live { Some(x) => x, None => old.block_processor.priority_live },
            priority_bootstrap: match v.priority_bootstrap { Some(x) => x, None => old.block_processor.priority_bootstrap },
            priority_local: match v.priority_local { Some(x) => x, None => old.block_processor.priority_local },
        },
        None => old.block_processor,
    })
    &&& new.backlog == (match toml.backlog_population {
        Some(v) => BacklogPopulationConfig {
            enabled: match v.enable { Some(x) => x, None => old.backlog.enabled },
            batch_size: match v.batch_size { Some(x) => x, None => old.backlog.batch_size },
            frequency: match v.frequency { Some(x) => x, None => old.backlog.frequency },
        },
        None => old.backlog,
    })
}

/// The single settings are the same.
pub open spec fn same_scalars(a: NodeConfig, b: NodeConfig) -> bool {
    &&& b.listening_port == a.listening_port
    &&& b.enable_voting == a.enable_voting
    &&& b.bootstrap_fraction_numerator == a.bootstrap_fraction_numerator
    &&& b.password_fanout == a.password_fanout
    &&& b.io_threads == a.io_threads
    &&& b.network_threads == a.network_threads
    &&& b.work_threads == a.work_threads
    &&& b.background_threads == a.background_threads
    &&& b.signature_checker_threads == a.signature_checker_threads
    &&& b.bootstrap_initiator_threads == a.bootstrap_initiator_threads
    &&& b.bootstrap_serving_threads == a.bootstrap_serving_threads
    &&& b.allow_local_peers == a.allow_local_peers
    &&& b.unchecked_cutoff_time_s == a.unchecked_cutoff_time_s
    &&& b.pow_sleep_interval_ns == a.pow_sleep_interval_ns
    &&& b.external_port == a.external_port
    &&& b.use_memory_pools == a.use_memory_pools
    &&& b.confirming_set_batch_time_ms == a.confirming_set_batch_time_ms
    &&& b.backup_before_upgrade == a.backup_before_upgrade
    &&& b.max_queued_requests == a.max_queued_requests
    &&& b.request_aggregator_threads == a.request_aggregator_threads
    &&& b.max_unchecked_blocks == a.max_unchecked_blocks
    &&& b.external_address@ == a.external_address@
    &&& b.vote_generator_delay_ms == a.vote_generator_delay_ms
}

/// The amounts are the same.
pub open spec fn same_amounts(a: NodeConfig, b: NodeConfig) -> bool {
    &&& b.online_weight_minimum == a.online_weight_minimum
    &&& b.receive_minimum == a.receive_minimum
    &&& b.representative_vote_weight_minimum == a.representative_vote_weight_minimum
    &&& b.vote_minimum == a.vote_minimum
    &&& b.rep_crawler_weight_minimum == a.rep_crawler_weight_minimum
}

/// The settings sections reach are the same.
pub open spec fn same_sections(a: NodeConfig, b: NodeConfig) -> bool {
    &&& b.hinted_scheduler == a.hinted_scheduler
    &&& b.callback_address@ == a.callback_address@
    &&& b.callback_port == a.callback_port
    &&& b.callback_target@ == a.callback_target@
    &&& b.rep_crawler_query_timeout_ms == a.rep_crawler_query_timeout_ms
    &&& b.optimistic_scheduler == a.optimistic_scheduler
    &&& same_bootstrap_toml_settings(a.bootstrap, b.bootstrap)
    &&& b.websocket_config.enabled == a.websocket_config.enabled
    &&& b.websocket_config.port == a.websocket_config.port
    &&& b.websocket_config.address@ == a.websocket_config.address@
    &&& b.vote_processor == a.vote_processor
    &&& b.request_aggregator == a.request_aggregator
    &&& b.message_processor == a.message_processor
    &&& b.backlog == a.backlog
    &&& b.vote_cache == a.vote_cache
    &&& b.active_elections == a.active_elections
    &&& b.monitor == a.monitor
    &&& b.bootstrap_server == a.bootstrap_server
    &&& b.priority_bucket == a.priority_bucket
    &&& b.block_processor == a.block_processor
}

/// The settings sections reach are those of `a`, but for the ages and intervals the
/// document holds in whole seconds, which are `a`'s rounded down to a second.
pub open spec fn sections_read_back(a: NodeConfig, b: NodeConfig) -> bool {
    &&& b.hinted_scheduler == a.hinted_scheduler
    &&& b.callback_address@ == a.callback_address@
    &&& b.callback_port == a.callback_port
    &&& b.callback_target@ == a.callback_target@
    &&& b.rep_crawler_query_timeout_ms == a.rep_crawler_query_timeout_ms
    &&& b.optimistic_scheduler == a.optimistic_scheduler
    &&& same_bootstrap_toml_settings(a.bootstrap, b.bootstrap)
    &&& b.websocket_config.enabled == a.websocket_config.enabled
    &&& b.websocket_config.port == a.websocket_config.port
    &&& b.websocket_config.address@ == a.websocket_config.address@
    &&& b.vote_processor == a.vote_processor
    &&& b.request_aggregator == a.request_aggregator
    &&& b.message_processor == a.message_processor
    &&& b.backlog == a.backlog
    &&& b.vote_cache.max_size == a.vote_cache.max_size
    &&& b.vote_cache.max_voters == a.vote_cache.max_voters
    &&& b.vote_cache.age_cutoff_ms == a.vote_cache.age_cutoff_ms / 1000 * 1000
    &&& b.active_elections.size == a.active_elections.size
    &&& b.active_elections.hinted_limit_percentage == a.active_elections.hinted_limit_percentage
    &&& b.active_elections.optimistic_limit_percentage == a.active_elections.optimistic_limit_percentage
    &&& b.active_elections.confirmation_history_size == a.active_elections.confirmation_history_size
    &&& b.active_elections.confirmation_cache == a.active_elections.confirmation_cache
    &&& b.monitor.enabled == a.monitor.enabled
    &&& b.monitor.interval_ms == a.monitor.interval_ms / 1000 * 1000
    &&& b.bootstrap_server == a.bootstrap_server
    &&& b.priority_bucket == a.priority_bucket
    &&& b.block_processor == a.block_processor
}

/// The fields no TOML value reaches are unchanged.
pub open spec fn uncovered_unchanged(old: NodeConfig, new: NodeConfig) -> bool {
    &&& new.default_peering_port == old.default_peering_port
    &&& new.enable_opencl == old.enable_opencl
    &&& new.enable_vote_processor == old.enable_vote_processor
    &&& new.enable_priority_scheduler == old.enable_priority_scheduler
    &&& new.enable_optimistic_scheduler == old.enable_optimistic_scheduler
    &&& new.enable_hinted_scheduler == old.enable_hinted_scheduler
    &&& new.enable_monitor == old.enable_monitor
    &&& new.enable_bounded_backlog == old.enable_bounded_backlog
    &&& new.enable_vote_rebroadcast == old.enable_vote_rebroadcast
    &&& new.enable_bootstrap_responder == old.enable_bootstrap_responder
    &&& same_bootstrap_other_settings(old.bootstrap, new.bootstrap)
    &&& new.work_peers@ == old.work_peers@
    &&& new.secondary_work_peers@ == old.secondary_work_peers@
    &&& new.preconfigured_peers@ == old.preconfigured_peers@
    &&& new.preconfigured_representatives@ == old.preconfigured_representatives@
    &&& new.max_pruning_age_s == old.max_pruning_age_s
    &&& new.max_pruning_depth == old.max_pruning_depth
    &&& new.block_processor_threads == old.block_processor_threads
    &&& new.active_elections.max_election_winners == old.active_elections.max_election_winners
    &&& new.tcp == old.tcp
    &&& new.network_duplicate_filter_size == old.network_duplicate_filter_size
    &&& new.network_duplicate_filter_cutoff == old.network_duplicate_filter_cutoff
    &&& new.confirmation_history_size == old.confirmation_history_size
    &&& new.cps_limit == old.cps_limit
    &&& new.fork_cache_max_size == old.fork_cache_max_size
    &&& new.fork_cache_max_forks_per_root == old.fork_cache_max_forks_per_root
    &&& new.bootstrap_stale_threshold_ms == old.bootstrap_stale_threshold_ms
}

/// The given value, or `current` when none is given.
fn or_keep<T: Copy>(value: Option<T>, current: T) -> (r: T)
    ensures
        r == (match value { Some(v) => v, None => current }),
{
    match value {
        Some(v) => v,
        None => current,
    }
}

fn widen_u32(value: Option<u32>) -> (r: Option<usize>)
    ensures
        r == (match value { Some(v) => Some(v as usize), None => None }),
{
    match value {
        Some(v) => Some(v as usize),
        None => None,
    }
}

/// A copy of the given string, or of `current` when none is given.
fn string_or_keep(value: &Option<String>, current: &String) -> (r: String)
    ensures
        r@ == (match *value { Some(v) => v@, None => current@ }),
{
    match value {
        Some(v) => v.clone(),
        None => current.clone(),
    }
}

/// The amount the text gives, or `current` when there is no text.
fn amount_or_keep(value: &Option<String>, current: u128) -> (r: u128)
    requires
        amount_valid(*value),
    ensures
        r == amount_or(*value, current),
{
    match value {
        Some(t) => match decode_dec(t.as_str()) {
            Some(v) => v,
            None => current,
        },
        None => current,
    }
}

/// A setting of the node's TOML document whose text is not valid.
#[derive(Clone, Copy, Debug, PartialEq, Eq)]
pub enum InvalidSetting {
    OnlineWeightMinimum,
    ReceiveMinimum,
    RepresentativeVoteWeightMinimum,
    VoteMinimum,
    RepCrawlerWeightMinimum,
}

fn amount_text_valid(value: &Option<String>) -> (r: bool)
    ensures
        r == amount_valid(*value),
{
    match value {
        Some(t) => decode_dec(t.as_str()).is_some(),
        None => true,
    }
}

impl NodeToml {
    /// The first amount of the document that does not read as an amount, in the order
    /// online weight minimum, receive minimum, representative vote weight minimum, vote
    /// minimum, rep crawler weight minimum; none when all are valid.
    pub fn invalid_setting(&self) -> (r: Option<InvalidSetting>)
        ensures
            r is None <==> amounts_valid(*self),
            r == Some(InvalidSetting::OnlineWeightMinimum) ==> !amount_valid(self.online_weight_minimum),
            r == Some(InvalidSetting::ReceiveMinimum) ==> !amount_valid(self.receive_minimum),
            r == Some(InvalidSetting::RepresentativeVoteWeightMinimum) ==> !amount_valid(self.representative_vote_weight_minimum),
            r == Some(InvalidSetting::VoteMinimum) ==> !amount_valid(self.vote_minimum),
            r == Some(InvalidSetting::RepCrawlerWeightMinimum) ==> !amount_valid(self.rep_crawler_weight_minimum),
    {
        if !amount_text_valid(&self.online_weight_minimum) {
            Some(InvalidSetting::OnlineWeightMinimum)
        } else if !amount_text_valid(&self.receive_minimum) {
            Some(InvalidSetting::ReceiveMinimum)
        } else if !amount_text_valid(&self.representative_vote_weight_minimum) {
            Some(InvalidSetting::RepresentativeVoteWeightMinimum)
        } else if !amount_text_valid(&self.vote_minimum) {
            Some(InvalidSetting::VoteMinimum)
        } else if !amount_text_valid(&self.rep_crawler_weight_minimum) {
            Some(InvalidSetting::RepCrawlerWeightMinimum)
        } else {
            None
        }
    }
}

fn vote_cache_after(c: VoteCacheConfig, t: &Option<VoteCacheToml>) -> (r: VoteCacheConfig)
    ensures
        r == (match *t {
            Some(v) => VoteCacheConfig {
                max_size: match v.max_size { Some(x) => x, None => c.max_size },
                max_voters: match v.max_voters { Some(x) => x, None => c.max_voters },
                age_cutoff_ms: match v.age_cutoff { Some(x) => seconds_as_ms(x), None => c.age_cutoff_ms },
            },
            None => c,
        }),
{
    match t {
        Some(v) => VoteCacheConfig {
            max_size: match v.max_size { Some(x) => x, None => c.max_size },
            max_voters: match v.max_voters { Some(x) => x, None => c.max_voters },
            age_cutoff_ms: match v.age_cutoff { Some(x) => seconds_to_ms(x), None => c.age_cutoff_ms },
        },
        None => c,
    }
}

fn active_elections_after(c: ActiveElectionsConfig, t: &Option<ActiveElectionsToml>) -> (r: ActiveElectionsConfig)
    ensures
        r == (match *t {
            Some(v) => ActiveElectionsConfig {
                size: match v.size { Some(x) => x, None => c.size },
                hinted_limit_percentage: match v.hinted_limit_percentage { Some(x) => x, None => c.hinted_limit_percentage },
                optimistic_limit_percentage: match v.optimistic_limit_percentage { Some(x) => x, None => c.optimistic_limit_percentage },
                confirmation_history_size: match v.confirmation_history_size { Some(x) => x, None => c.confirmation_history_size },
                confirmation_cache: match v.confirmation_cache { Some(x) => x, None => c.confirmation_cache },
                max_election_winners: c.max_election_winners,
            },
            None => c,
        }),
{
    match t {
        Some(v) => ActiveElectionsConfig {
            size: match v.size { Some(x) => x, None => c.size },
            hinted_limit_percentage: match v.hinted_limit_percentage { Some(x) => x, None => c.hinted_limit_percentage },
            optimistic_limit_percentage: match v.optimistic_limit_percentage { Some(x) => x, None => c.optimistic_limit_percentage },
            confirmation_history_size: match v.confirmation_history_size { Some(x) => x, None => c.confirmation_history_size },
            confirmation_cache: match v.confirmation_cache { Some(x) => x, None => c.confirmation_cache },
            max_election_winners: c.max_election_winners,
        },
        None => c,
    }
}

fn monitor_after(c: MonitorConfig, t: &Option<MonitorToml>) -> (r: MonitorConfig)
    ensures
        r == (match *t {
            Some(v) => MonitorConfig {
                enabled: match v.enable { Some(x) => x, None => c.enabled },
                interval_ms: match v.interval { Some(x) => seconds_as_ms(x), None => c.interval_ms },
            },
            None => c,
        }),
{
    match t {
        Some(v) => MonitorConfig {
            enabled: match v.enable { Some(x) => x, None => c.enabled },
            interval_ms: match v.interval { Some(x) => seconds_to_ms(x), None => c.interval_ms },
        },
        None => c,
    }
}

fn bootstrap_server_after(c: BootstrapServerConfig, t: &Option<BootstrapServerToml>) -> (r: BootstrapServerConfig)
    ensures
        r == (match *t {
            Some(v) => BootstrapServerConfig {
                max_queue: match v.max_queue { Some(x) => x, None => c.max_queue },
                threads: match v.threads { Some(x) => x, None => c.threads },
                batch_size: match v.batch_size { Some(x) => x, None => c.batch_size },
            },
            None => c,
        }),
{
    match t {
        Some(v) => BootstrapServerConfig {
            max_queue: match v.max_queue { Some(x) => x, None => c.max_queue },
            threads: match v.threads { Some(x) => x, None => c.threads },
            batch_size: match v.batch_size { Some(x) => x, None => c.batch_size },
        },
        None => c,
    }
}

fn priority_bucket_after(c: PriorityBucketConfig, t: &Option<PriorityBucketToml>) -> (r: PriorityBucketConfig)
    ensures
        r == (match *t {
            Some(v) => PriorityBucketConfig {
                max_blocks: match v.max_blocks { Some(x) => x, None => c.max_blocks },
                max_elections: match v.max_elections { Some(x) => x, None => c.max_elections },
                reserved_elections: match v.reserved_elections { Some(x) => x, None => c.reserved_elections },
            },
            None => c,
        }),
{
    match t {
        Some(v) => PriorityBucketConfig {
            max_blocks: match v.max_blocks { Some(x) => x, None => c.max_blocks },
            max_elections: match v.max_elections { Some(x) => x, None => c.max_elections },
            reserved_elections: match v.reserved_elections { Some(x) => x, None => c.reserved_elections },
        },
        None => c,
    }
}

fn block_processor_after(c: BlockProcessorConfig, t: &Option<BlockProcessorToml>) -> (r: BlockProcessorConfig)
    ensures
        r == (match *t {
            Some(v) => BlockProcessorConfig {
                max_peer_queue: match v.max_peer_queue { Some(x) => x, None => c.max_peer_queue },
                max_system_queue: match v.max_system_queue { Some(x) => x, None => c.max_system_queue },
                priority_live: match v.priority_live { Some(x) => x, None => c.priority_live },
                priority_bootstrap: match v.priority_bootstrap { Some(x) => x, None => c.priority_bootstrap },
                priority_local: match v.priority_local { Some(x) => x, None => c.priority_local },
            },
            None => c,
        }),
{
    match t {
        Some(v) => BlockProcessorConfig {
            max_peer_queue: match v.max_peer_queue { Some(x) => x, None => c.max_peer_queue },
            max_system_queue: match v.max_system_queue { Some(x) => x, None => c.max_system_queue },
            priority_live: match v.priority_live { Some(x) => x, None => c.priority_live },
            priority_bootstrap: match v.priority_bootstrap { Some(x) => x, None => c.priority_bootstrap },
            priority_local: match v.priority_local { Some(x) => x, None => c.priority_local },
        },
        None => c,
    }
}

fn hinted_after(c: HintedSchedulerConfig, t: &Option<HintedSchedulerToml>) -> (r: HintedSchedulerConfig)
    ensures
        r == (match *t { Some(h) => HintedSchedulerConfig::spec_from_toml(h), None => c }),
{
    match t {
        Some(h) => HintedSchedulerConfig::from_toml(h),
        None => c,
    }
}

fn query_timeout_after(c: u64, t: &Option<RepCrawlerToml>) -> (r: u64)
    ensures
        r == (match *t { Some(rc) => match rc.query_timeout { Some(v) => v, None => c }, None => c }),
{
    let mut r = c;
    if let Some(rc) = t {
        rc.merge_into(&mut r);
    }
    r
}

fn callback_merge(address: &mut String, port: &mut u16, target: &mut String, t: &Option<HttpcallbackToml>)
    ensures
        final(address)@ == (match *t { Some(cb) => match cb.address { Some(a) => a@, None => old(address)@ }, None => old(address)@ }),
        *final(port) == (match *t { Some(cb) => match cb.port { Some(p) => p, None => *old(port) }, None => *old(port) }),
        final(target)@ == (match *t { Some(cb) => match cb.target { Some(x) => x@, None => old(target)@ }, None => old(target)@ }),
{
    if let Some(cb) = t {
        cb.merge_into(address, port, target);
    }
}

fn optimistic_after(c: OptimisticSchedulerConfig, t: &Option<OptimisticSchedulerToml>) -> (r: OptimisticSchedulerConfig)
    ensures
        r == (match *t {
            Some(o) => OptimisticSchedulerConfig {
                enabled: match o.enable { Some(v) => v, None => c.enabled },
                gap_threshold: match o.gap_threshold { Some(v) => v, None => c.gap_threshold },
                max_size: match o.max_size { Some(v) => v, None => c.max_size },
            },
            None => c,
        }),
{
    match t {
        Some(o) => o.to_config(&c),
        None => c,
    }
}

fn bootstrap_after(c: BootstrapConfig, t: &Option<BootstrapAscendingToml>) -> (r: BootstrapConfig)
    ensures
        r == (match *t { Some(b) => bootstrap_after_toml(c, b), None => c }),
{
    let mut r = c;
    if let Some(b) = t {
        r.merge_toml(b);
    }
    r
}

fn websocket_merge(c: &mut WebsocketConfig, t: &Option<WebsocketToml>)
    ensures
        final(c).enabled == (match *t { Some(w) => match w.enable { Some(v) => v, None => old(c).enabled }, None => old(c).enabled }),
        final(c).port == (match *t { Some(w) => match w.port { Some(v) => v, None => old(c).port }, None => old(c).port }),
        final(c).address@ == (match *t { Some(w) => match w.address { Some(v) => v@, None => old(c).address@ }, None => old(c).address@ }),
{
    if let Some(w) = t {
        c.merge_toml(w);
    }
}

fn vote_processor_after(c: VoteProcessorConfig, t: &Option<VoteProcessorToml>) -> (r: VoteProcessorConfig)
    ensures
        r == (match *t {
            Some(v) => VoteProcessorConfig {
                max_pr_queue: match v.max_pr_queue { Some(x) => x, None => c.max_pr_queue },
                max_non_pr_queue: match v.max_non_pr_queue { Some(x) => x, None => c.max_non_pr_queue },
                pr_priority: match v.pr_priority { Some(x) => x, None => c.pr_priority },
                threads: match v.threads { Some(x) => x, None => c.threads },
                batch_size: match v.batch_size { Some(x) => x, None => c.batch_size },
            },
            None => c,
        }),
{
    let mut r = c;
    if let Some(v) = t {
        r.merge_toml(v);
    }
    r
}

fn request_aggregator_after(c: RequestAggregatorConfig, t: &Option<RequestAggregatorToml>) -> (r: RequestAggregatorConfig)
    ensures
        r == (match *t {
            Some(v) => RequestAggregatorConfig {
                threads: match v.threads { Some(x) => x, None => c.threads },
                max_queue: match v.max_queue { Some(x) => x, None => c.max_queue },
                batch_size: match v.batch_size { Some(x) => x, None => c.batch_size },
            },
            None => c,
        }),
{
    let mut r = c;
    if let Some(v) = t {
        r.merge_toml(v);
    }
    r
}

fn message_processor_after(c: MessageProcessorConfig, t: &Option<MessageProcessorToml>) -> (r: MessageProcessorConfig)
    ensures
        r == (match *t {
            Some(v) => MessageProcessorConfig {
                threads: match v.threads { Some(x) => x, None => c.threads },
                max_queue: match v.max_queue { Some(x) => x, None => c.max_queue },
            },
            None => c,
        }),
{
    let mut r = c;
    if let Some(v) = t {
        r.merge_toml(v);
    }
    r
}

fn backlog_after(c: BacklogPopulationConfig, t: &Option<BacklogPopulationToml>) -> (r: BacklogPopulationConfig)
    ensures
        r == (match *t {
            Some(v) => BacklogPopulationConfig {
                enabled: match v.enable { Some(x) => x, None => c.enabled },
                batch_size: match v.batch_size { Some(x) => x, None => c.batch_size },
                frequency: match v.frequency { Some(x) => x, None => c.frequency },
            },
            None => c,
        }),
{
    let mut r = c;
    if let Some(v) = t {
        r.merge_toml(v);
    }
    r
}

impl NodeConfig {
    fn merge_scalars(&mut self, toml: &NodeToml)
        ensures
            scalars_merged(*old(self), *toml, *final(self)),
            same_amounts(*old(self), *final(self)),
            same_sections(*old(self), *final(self)),
            uncovered_unchanged(*old(self), *final(self)),
    {
        let mut work_peers = Vec::new();
        std::mem::swap(&mut work_peers, &mut self.work_peers);
        let mut secondary_work_peers = Vec::new();
        std::mem::swap(&mut secondary_work_peers, &mut self.secondary_work_peers);
        let mut preconfigured_peers = Vec::new();
        std::mem::swap(&mut preconfigured_peers, &mut self.preconfigured_peers);
        let mut preconfigured_representatives = Vec::new();
        std::mem::swap(&mut preconfigured_representatives, &mut self.preconfigured_representatives);
        let mut websocket_config = WebsocketConfig { enabled: false, port: 0, address: String::new() };
        std::mem::swap(&mut websocket_config, &mut self.websocket_config);
        let callback_address = self.callback_address.clone();
        let callback_target = self.callback_target.clone();
        let external_address = string_or_keep(&toml.external_address, &self.external_address);
        *self = NodeConfig {
            default_peering_port: self.default_peering_port,
            listening_port: or_keep(toml.peering_port, self.listening_port),
            enable_opencl: self.enable_opencl,
            enable_voting: or_keep(toml.enable_voting, self.enable_voting),
            enable_vote_processor: self.enable_vote_processor,
            enable_priority_scheduler: self.enable_priority_scheduler,
            enable_optimistic_scheduler: self.enable_optimistic_scheduler,
            enable_hinted_scheduler: self.enable_hinted_scheduler,
            enable_monitor: self.enable_monitor,
            enable_bounded_backlog: self.enable_bounded_backlog,
            enable_vote_rebroadcast: self.enable_vote_rebroadcast,
            enable_bootstrap_responder: self.enable_bootstrap_responder,
            hinted_scheduler: self.hinted_scheduler,
            bootstrap_fraction_numerator: or_keep(toml.bootstrap_fraction_numerator, self.bootstrap_fraction_numerator),
            receive_minimum: self.receive_minimum,
            online_weight_minimum: self.online_weight_minimum,
            representative_vote_weight_minimum: self.representative_vote_weight_minimum,
            password_fanout: or_keep(toml.password_fanout, self.password_fanout),
            io_threads: or_keep(widen_u32(toml.io_threads), self.io_threads),
            network_threads: or_keep(toml.network_threads, self.network_threads),
            work_threads: or_keep(toml.work_threads, self.work_threads),
            background_threads: or_keep(toml.background_threads, self.background_threads),
            signature_checker_threads: or_keep(toml.signature_checker_threads, self.signature_checker_threads),
            bootstrap_initiator_threads: or_keep(toml.bootstrap_initiator_threads, self.bootstrap_initiator_threads),
            bootstrap_serving_threads: or_keep(toml.bootstrap_serving_threads, self.bootstrap_serving_threads),
            allow_local_peers: or_keep(toml.allow_local_peers, self.allow_local_peers),
            vote_minimum: self.vote_minimum,
            vote_generator_delay_ms: or_keep(toml.vote_generator_delay, self.vote_generator_delay_ms),
            unchecked_cutoff_time_s: or_keep(toml.unchecked_cutoff_time, self.unchecked_cutoff_time_s),
            pow_sleep_interval_ns: or_keep(toml.pow_sleep_interval, self.pow_sleep_interval_ns),
            external_address,
            external_port: or_keep(toml.external_port, self.external_port),
            use_memory_pools: or_keep(toml.use_memory_pools, self.use_memory_pools),
            bootstrap: self.bootstrap,
            bootstrap_server: self.bootstrap_server,
            confirming_set_batch_time_ms: or_keep(toml.confirming_set_batch_time, self.confirming_set_batch_time_ms),
            backup_before_upgrade: or_keep(toml.backup_before_upgrade, self.backup_before_upgrade),
            max_queued_requests: or_keep(toml.max_queued_requests, self.max_queued_requests),
            request_aggregator_threads: or_keep(toml.request_aggregator_threads, self.request_aggregator_threads),
            max_unchecked_blocks: or_keep(toml.max_unchecked_blocks, self.max_unchecked_blocks),
            rep_crawler_weight_minimum: self.rep_crawler_weight_minimum,
            work_peers,
            secondary_work_peers,
            preconfigured_peers,
            preconfigured_representatives,
            max_pruning_age_s: self.max_pruning_age_s,
            max_pruning_depth: self.max_pruning_depth,
            callback_address,
            callback_port: self.callback_port,
            callback_target,
            vote_cache: self.vote_cache,
            rep_crawler_query_timeout_ms: self.rep_crawler_query_timeout_ms,
            block_processor_threads: self.block_processor_threads,
            active_elections: self.active_elections,
            tcp: self.tcp,
            monitor: self.monitor,
            network_duplicate_filter_size: self.network_duplicate_filter_size,
            network_duplicate_filter_cutoff: self.network_duplicate_filter_cutoff,
            confirmation_history_size: self.confirmation_history_size,
            cps_limit: self.cps_limit,
            optimistic_scheduler: self.optimistic_scheduler,
            websocket_config,
            vote_processor: self.vote_processor,
            request_aggregator: self.request_aggregator,
            message_processor: self.message_processor,
            backlog: self.backlog,
            priority_bucket: self.priority_bucket,
            block_processor: self.block_processor,
            fork_cache_max_size: self.fork_cache_max_size,
            fork_cache_max_forks_per_root: self.fork_cache_max_forks_per_root,
            bootstrap_stale_threshold_ms: self.bootstrap_stale_threshold_ms,
        };
    }

    fn merge_amounts(&mut self, toml: &NodeToml)
        requires
            amounts_valid(*toml),
        ensures
            amounts_merged(*old(self), *toml, *final(self)),
            same_scalars(*old(self), *final(self)),
            same_sections(*old(self), *final(self)),
            uncovered_unchanged(*old(self), *final(self)),
    {
        self.online_weight_minimum = amount_or_keep(&toml.online_weight_minimum, self.online_weight_minimum);
        self.receive_minimum = amount_or_keep(&toml.receive_minimum, self.receive_minimum);
        self.representative_vote_weight_minimum =
            amount_or_keep(&toml.representative_vote_weight_minimum, self.representative_vote_weight_minimum);
        self.vote_minimum = amount_or_keep(&toml.vote_minimum, self.vote_minimum);
        self.rep_crawler_weight_minimum = amount_or_keep(&toml.rep_crawler_weight_minimum, self.rep_crawler_weight_minimum);
    }

    fn merge_sections(&mut self, toml: &NodeToml)
        ensures
            sections_merged(*old(self), *toml, *final(self)),
            same_scalars(*old(self), *final(self)),
            same_amounts(*old(self), *final(self)),
            uncovered_unchanged(*old(self), *final(self)),
    {
        self.hinted_scheduler = hinted_after(self.hinted_scheduler, &toml.hinted_scheduler);
        self.rep_crawler_query_timeout_ms = query_timeout_after(self.rep_crawler_query_timeout_ms, &toml.rep_crawler);
        callback_merge(&mut self.callback_address, &mut self.callback_port, &mut self.callback_target, &toml.httpcallback);
        self.merge_components(toml);
    }

    fn merge_components(&mut self, toml: &NodeToml)
        ensures
            components_merged(*old(self), *toml, *final(self)),
            final(self).hinted_scheduler == old(self).hinted_scheduler,
            final(self).callback_address@ == old(self).callback_address@,
            final(self).callback_port == old(self).callback_port,
            final(self).callback_target@ == old(self).callback_target@,
            final(self).rep_crawler_query_timeout_ms == old(self).rep_crawler_query_timeout_ms,
            same_scalars(*old(self), *final(self)),
            same_amounts(*old(self), *final(self)),
            uncovered_unchanged(*old(self), *final(self)),
    {
        self.optimistic_scheduler = optimistic_after(self.optimistic_scheduler, &toml.optimistic_scheduler);
        self.bootstrap = bootstrap_after(self.bootstrap, &toml.bootstrap_ascending);
        websocket_merge(&mut self.websocket_config, &toml.websocket);
        self.vote_processor = vote_processor_after(self.vote_processor, &toml.vote_processor);
        self.request_aggregator = request_aggregator_after(self.request_aggregator, &toml.request_aggregator);
        self.message_processor = message_processor_after(self.message_processor, &toml.message_processor);
        self.backlog = backlog_after(self.backlog, &toml.backlog_population);
        self.vote_cache = vote_cache_after(self.vote_cache, &toml.vote_cache);
        self.active_elections = active_elections_after(self.active_elections, &toml.active_elections);
        self.monitor = monitor_after(self.monitor, &toml.monitor);
        self.bootstrap_server = bootstrap_server_after(self.bootstrap_server, &toml.bootstrap_server);
        self.priority_bucket = priority_bucket_after(self.priority_bucket, &toml.priority_bucket);
        self.block_processor = block_processor_after(self.block_processor, &toml.block_processor);
    }

    /// Overrides the settings the TOML document sets; a section replaces or adjusts the
    /// settings it covers. Every amount the document gives must read as an amount (see
    /// `NodeToml::invalid_setting`).
    pub fn merge_toml(&mut self, toml: &NodeToml)
        requires
            amounts_valid(*toml),
        ensures
            scalars_merged(*old(self), *toml, *final(self)),
            amounts_merged(*old(self), *toml, *final(self)),
            sections_merged(*old(self), *toml, *final(self)),
            uncovered_unchanged(*old(self), *final(self)),
    {
        self.merge_scalars(toml);
        self.merge_amounts(toml);
        self.merge_sections(toml);
    }
}

/// `t` is the document that sets every setting it covers to `c`'s value.
pub open spec fn describes(t: NodeToml, c: NodeConfig) -> bool {
    &&& (t.allow_local_peers == Some(c.allow_local_peers))
    &&& (t.background_threads == Some(c.background_threads))
    &&& (t.backup_before_upgrade == Some(c.backup_before_upgrade))
    &&& (t.bootstrap_fraction_numerator == Some(c.bootstrap_fraction_numerator))
    &&& (t.bootstrap_initiator_threads == Some(c.bootstrap_initiator_threads))
    &&& (t.bootstrap_serving_threads == Some(c.bootstrap_serving_threads))
    &&& (t.confirming_set_batch_time == Some(c.confirming_set_batch_time_ms))
    &&& (t.enable_voting == Some(c.enable_voting))
    &&& (t.external_address matches Some(v) && v@ == c.external_address@)
    &&& (t.external_port == Some(c.external_port))
    &&& (t.io_threads == Some(c.io_threads as u32))
    &&& (t.max_queued_requests == Some(c.max_queued_requests))
    &&& (t.max_unchecked_blocks == Some(c.max_unchecked_blocks))
    &&& (t.network_threads == Some(c.network_threads))
    &&& (t.online_weight_minimum matches Some(v) && v@ == decimal_digits(c.online_weight_minimum as nat))
    &&& (t.password_fanout == Some(c.password_fanout))
    &&& (t.peering_port == Some(c.listening_port))
    &&& (t.pow_sleep_interval == Some(c.pow_sleep_interval_ns))
    &&& (t.receive_minimum matches Some(v) && v@ == decimal_digits(c.receive_minimum as nat))
    &&& (t.rep_crawler_weight_minimum matches Some(v) && v@ == decimal_digits(c.rep_crawler_weight_minimum as nat))
    &&& (t.representative_vote_weight_minimum matches Some(v) && v@ == decimal_digits(c.representative_vote_weight_minimum as nat))
    &&& (t.request_aggregator_threads == Some(c.request_aggregator_threads))
    &&& (t.signature_checker_threads == Some(c.signature_checker_threads))
    &&& (t.unchecked_cutoff_time == Some(c.unchecked_cutoff_time_s))
    &&& (t.use_memory_pools == Some(c.use_memory_pools))
    &&& (t.vote_generator_delay == Some(c.vote_generator_delay_ms))
    &&& (t.vote_minimum matches Some(v) && v@ == decimal_digits(c.vote_minimum as nat))
    &&& (t.work_threads == Some(c.work_threads))
    &&& (t.optimistic_scheduler == Some(OptimisticSchedulerToml {
        enable: Some(c.optimistic_scheduler.enabled),
        gap_threshold: Some(c.optimistic_scheduler.gap_threshold),
        max_size: Some(c.optimistic_scheduler.max_size),
    }))
    &&& (t.hinted_scheduler == Some(HintedSchedulerToml::spec_of(c.hinted_scheduler)))
    &&& (t.bootstrap_ascending == Some(BootstrapAscendingToml::spec_of(c.bootstrap)))
    &&& (t.httpcallback matches Some(cb) && { &&& cb.address matches Some(a) && a@ == c.callback_address@ &&& cb.port == Some(c.callback_port) &&& cb.target matches Some(t) && t@ == c.callback_target@ })
    &&& (t.rep_crawler == Some(RepCrawlerToml { query_timeout: Some(c.rep_crawler_query_timeout_ms) }))
    &&& (t.websocket matches Some(w) && {
        &&& w.enable == Some(c.websocket_config.enabled)
        &&& w.port == Some(c.websocket_config.port)
        &&& w.address matches Some(a) && a@ == c.websocket_config.address@
    })
    &&& (t.vote_processor == Some(VoteProcessorToml {
        max_pr_queue: Some(c.vote_processor.max_pr_queue),
        max_non_pr_queue: Some(c.vote_processor.max_non_pr_queue),
        pr_priority: Some(c.vote_processor.pr_priority),
        threads: Some(c.vote_processor.threads),
        batch_size: Some(c.vote_processor.batch_size),
    }))
    &&& (t.request_aggregator == Some(RequestAggregatorToml {
        threads: Some(c.request_aggregator.threads),
        max_queue: Some(c.request_aggregator.max_queue),
        batch_size: Some(c.request_aggregator.batch_size),
    }))
    &&& (t.message_processor == Some(MessageProcessorToml {
        threads: Some(c.message_processor.threads),
        max_queue: Some(c.message_processor.max_queue),
    }))
    &&& (t.backlog_population == Some(BacklogPopulationToml {
        enable: Some(c.backlog.enabled),
        batch_size: Some(c.backlog.batch_size),
        frequency: Some(c.backlog.frequency),
    }))
    &&& (t.vote_cache == Some(VoteCacheToml {
        max_size: Some(c.vote_cache.max_size),
        max_voters: Some(c.vote_cache.max_voters),
        age_cutoff: Some(c.vote_cache.age_cutoff_ms / 1000),
    }))
    &&& (t.active_elections == Some(ActiveElectionsToml {
        size: Some(c.active_elections.size),
        hinted_limit_percentage: Some(c.active_elections.hinted_limit_percentage),
        optimistic_limit_percentage: Some(c.active_elections.optimistic_limit_percentage),
        confirmation_history_size: Some(c.active_elections.confirmation_history_size),
        confirmation_cache: Some(c.active_elections.confirmation_cache),
    }))
    &&& (t.monitor == Some(MonitorToml { enable: Some(c.monitor.enabled), interval: Some(c.monitor.interval_ms / 1000) }))
    &&& (t.priority_bucket == Some(PriorityBucketToml {
        max_blocks: Some(c.priority_bucket.max_blocks),
        max_elections: Some(c.priority_bucket.max_elections),
        reserved_elections: Some(c.priority_bucket.reserved_elections),
    }))
    &&& (t.block_processor == Some(BlockProcessorToml {
        max_peer_queue: Some(c.block_processor.max_peer_queue),
        max_system_queue: Some(c.block_processor.max_system_queue),
        priority_live: Some(c.block_processor.priority_live),
        priority_bootstrap: Some(c.block_processor.priority_bootstrap),
        priority_local: Some(c.block_processor.priority_local),
    }))
    &&& (t.bootstrap_server == Some(BootstrapServerToml {
        max_queue: Some(c.bootstrap_server.max_queue),
        threads: Some(c.bootstrap_server.threads),
        batch_size: Some(c.bootstrap_server.batch_size),
    }))
}

impl NodeToml {
    /// The document that sets every setting it covers to the configuration's value;
    /// amounts are written in decimal digits without leading zeros.
    pub fn from_config(config: &NodeConfig) -> (r: Self)
        ensures
            describes(r, *config),
    {
        NodeToml {
            allow_local_peers: Some(config.allow_local_peers),
            background_threads: Some(config.background_threads),
            backup_before_upgrade: Some(config.backup_before_upgrade),
            bootstrap_fraction_numerator: Some(config.bootstrap_fraction_numerator),
            bootstrap_initiator_threads: Some(config.bootstrap_initiator_threads),
            bootstrap_serving_threads: Some(config.bootstrap_serving_threads),
            confirming_set_batch_time: Some(config.confirming_set_batch_time_ms),
            enable_voting: Some(config.enable_voting),
            external_address: Some(config.external_address.clone()),
            external_port: Some(config.external_port),
            io_threads: Some(config.io_threads as u32),
            max_queued_requests: Some(config.max_queued_requests),
            max_unchecked_blocks: Some(config.max_unchecked_blocks),
            network_threads: Some(config.network_threads),
            online_weight_minimum: Some(encode_dec(config.online_weight_minimum)),
            password_fanout: Some(config.password_fanout),
            peering_port: Some(config.listening_port),
            pow_sleep_interval: Some(config.pow_sleep_interval_ns),
            receive_minimum: Some(encode_dec(config.receive_minimum)),
            rep_crawler_weight_minimum: Some(encode_dec(config.rep_crawler_weight_minimum)),
            representative_vote_weight_minimum: Some(encode_dec(config.representative_vote_weight_minimum)),
            request_aggregator_threads: Some(config.request_aggregator_threads),
            signature_checker_threads: Some(config.signature_checker_threads),
            unchecked_cutoff_time: Some(config.unchecked_cutoff_time_s),
            use_memory_pools: Some(config.use_memory_pools),
            vote_generator_delay: Some(config.vote_generator_delay_ms),
            vote_minimum: Some(encode_dec(config.vote_minimum)),
            work_threads: Some(config.work_threads),
            optimistic_scheduler: Some(OptimisticSchedulerToml::from_config(&config.optimistic_scheduler)),
            hinted_scheduler: Some(HintedSchedulerToml::from_config(&config.hinted_scheduler)),
            bootstrap_ascending: Some(BootstrapAscendingToml::from_config(&config.bootstrap)),
            httpcallback: Some(HttpcallbackToml::from_values(&config.callback_address, config.callback_port, &config.callback_target)),
            rep_crawler: Some(RepCrawlerToml::from_query_timeout(config.rep_crawler_query_timeout_ms)),
            websocket: Some(WebsocketToml::from_config(&config.websocket_config)),
            vote_processor: Some(VoteProcessorToml::from_config(&config.vote_processor)),
            request_aggregator: Some(RequestAggregatorToml::from_config(&config.request_aggregator)),
            message_processor: Some(MessageProcessorToml::from_config(&config.message_processor)),
            backlog_population: Some(BacklogPopulationToml::from_config(&config.backlog)),
            vote_cache: Some(VoteCacheToml {
                max_size: Some(config.vote_cache.max_size),
                max_voters: Some(config.vote_cache.max_voters),
                age_cutoff: Some(config.vote_cache.age_cutoff_ms / 1000),
            }),
            active_elections: Some(ActiveElectionsToml {
                size: Some(config.active_elections.size),
                hinted_limit_percentage: Some(config.active_elections.hinted_limit_percentage),
                optimistic_limit_percentage: Some(config.active_elections.optimistic_limit_percentage),
                confirmation_history_size: Some(config.active_elections.confirmation_history_size),
                confirmation_cache: Some(config.active_elections.confirmation_cache),
            }),
            monitor: Some(MonitorToml { enable: Some(config.monitor.enabled), interval: Some(config.monitor.interval_ms / 1000) }),
            priority_bucket: Some(PriorityBucketToml {
                max_blocks: Some(config.priority_bucket.max_blocks),
                max_elections: Some(config.priority_bucket.max_elections),
                reserved_elections: Some(config.priority_bucket.reserved_elections),
            }),
            block_processor: Some(BlockProcessorToml {
                max_peer_queue: Some(config.block_processor.max_peer_queue),
                max_system_queue: Some(config.block_processor.max_system_queue),
                priority_live: Some(config.block_processor.priority_live),
                priority_bootstrap: Some(config.block_processor.priority_bootstrap),
                priority_local: Some(config.block_processor.priority_local),
            }),
            bootstrap_server: Some(BootstrapServerToml {
                max_queue: Some(config.bootstrap_server.max_queue),
                threads: Some(config.bootstrap_server.threads),
                batch_size: Some(config.bootstrap_server.batch_size),
            }),
        }
    }
}

impl NodeConfig {
    /// The preconfigured representative at `index`, if there is one.
    pub fn representative_at(&self, index: usize) -> (r: Option<PublicKey>)
        ensures
            r == (if index < self.preconfigured_representatives@.len() {
                Some(self.preconfigured_representatives@[index as int])
            } else {
                None::<PublicKey>
            }),
    {
        if index < self.preconfigured_representatives.len() {
            Some(self.preconfigured_representatives[index])
        } else {
            None
        }
    }

    /// One of the preconfigured representatives, picked at random; none when there are
    /// none.
    pub fn random_representative(&self) -> (r: Option<PublicKey>)
        ensures
            r is None <==> self.preconfigured_representatives@.len() == 0,
            r matches Some(k) ==> self.preconfigured_representatives@.contains(k),
    {
        if self.preconfigured_representatives.len() == 0 {
            return None;
        }
        let i = random_index(self.preconfigured_representatives.len());
        let r = self.representative_at(i);
        proof {
            assert(self.preconfigured_representatives@[i as int] == r->0);
        }
        r
    }
}

/// Writing a configuration to TOML and reading it back onto any configuration gives back
/// every setting the document covers (ages and intervals, written in whole seconds, come
/// back rounded down to a second); the others keep the values they had. The amounts the
/// document holds are valid.
pub proof fn lemma_node_toml_round_trip(base: NodeConfig, c: NodeConfig, t: NodeToml, read: NodeConfig)
    requires
        describes(t, c),
        merged(base, t, read),
        c.io_threads <= u32::MAX,
    ensures
        amounts_valid(t),
        same_scalars(c, read),
        same_amounts(c, read),
        sections_read_back(c, read),
        uncovered_unchanged(base, read),
{
    lemma_decimal_round_trip(c.online_weight_minimum as nat);
    lemma_decimal_round_trip(c.receive_minimum as nat);
    lemma_decimal_round_trip(c.representative_vote_weight_minimum as nat);
    lemma_decimal_round_trip(c.vote_minimum as nat);
    lemma_decimal_round_trip(c.rep_crawler_weight_minimum as nat);
    assert(c.bootstrap.account_sets == AccountSetsToml::spec_of(c.bootstrap.account_sets).spec_to_config());
}

} // verus!
