use rsnano_node::config::{
    AccountSetsToml, BacklogPopulationToml, BootstrapAscendingToml, HintedSchedulerToml, HttpcallbackToml,
    MessageProcessorConfig, MessageProcessorToml, Networks, OptimisticSchedulerConfig, OptimisticSchedulerToml,
    RepCrawlerToml, RequestAggregatorConfig, TcpConfig, VoteProcessorConfig, VoteProcessorToml, WebsocketConfig,
    WebsocketToml,
};
use rsnano_node::node_config::{
    ActiveElectionsToml, BlockProcessorConfig, BlockProcessorToml, BootstrapServerToml, ComponentConfigs, InvalidSetting,
    MonitorToml, NodeConfig, NodeToml, PriorityBucketConfig, PriorityBucketToml, VoteCacheToml, MICRONANO_RAW, NANO_RAW,
};
use rsnano_node::numbers::Hash256;
use rsnano_node::amount_text::{decode_dec, encode_dec};
use rsnano_node::daemon_config::{DaemonConfig, DaemonToml, NodeRpcToml, OpenclConfig, OpenclToml};

fn genesis() -> Hash256 {
    Hash256::new(7, 7)
}

fn beta_rep() -> Hash256 {
    Hash256::new(9, 9)
}

fn components() -> ComponentConfigs {
    ComponentConfigs {
        optimistic_scheduler: OptimisticSchedulerConfig { enabled: true, gap_threshold: 32, max_size: 65536 },
        websocket: WebsocketConfig { enabled: false, port: 7078, address: String::from("::1") },
        vote_processor: VoteProcessorConfig { max_pr_queue: 256, max_non_pr_queue: 32, pr_priority: 3, threads: 1, batch_size: 1024 },
        request_aggregator: RequestAggregatorConfig { threads: 1, max_queue: 128, batch_size: 16 },
        message_processor: MessageProcessorConfig { threads: 1, max_queue: 64 },
        priority_bucket: PriorityBucketConfig { max_blocks: 250, max_elections: 150, reserved_elections: 100 },
        block_processor: BlockProcessorConfig { max_peer_queue: 128, max_system_queue: 16384, priority_live: 1, priority_bootstrap: 8, priority_local: 16 },
        fork_cache_max_size: 1024,
        fork_cache_max_forks_per_root: 10,
        bootstrap_stale_threshold_ms: 15_000,
    }
}

fn config(network: Networks, ipv4: bool, host: Option<String>, parallelism: usize) -> NodeConfig {
    NodeConfig::new(Some(7075), network, 7075, genesis(), beta_rep(), ipv4, &host, parallelism, components())
}

#[test]
fn dev_network_defaults() {
    let c = config(Networks::NanoDevNetwork, true, None, 2);
    assert!(c.enable_voting);
    assert!(c.preconfigured_peers.is_empty());
    assert_eq!(c.preconfigured_representatives, vec![genesis()]);
    assert!(c.allow_local_peers);
    assert_eq!(c.rep_crawler_query_timeout_ms, 1000);
    assert_eq!(c.tcp, TcpConfig::for_dev_network());
    assert_eq!(c.hinted_scheduler.check_interval_ms, 100);
    assert_eq!(c.max_pruning_age_s, 24 * 60 * 60);
}

#[test]
fn live_network_peers_follow_ipv4_availability() {
    let c = config(Networks::NanoLiveNetwork, true, None, 8);
    assert!(!c.enable_voting);
    assert!(!c.allow_local_peers);
    assert_eq!(c.preconfigured_peers.len(), 10);
    assert_eq!(c.preconfigured_peers[0].address, "37.27.80.228");
    assert_eq!(c.preconfigured_peers[9].address, "23.88.62.227");
    assert!(c.preconfigured_peers.iter().all(|p| p.port == 7075));
    let c6 = config(Networks::NanoLiveNetwork, false, None, 8);
    assert_eq!(c6.preconfigured_peers[0].address, "[::ffff:37.27.80.228]");
    assert_eq!(c6.preconfigured_representatives, vec![genesis()]);
    assert_eq!(c6.rep_crawler_query_timeout_ms, 60_000);
    assert_eq!(c6.tcp, TcpConfig::default());
}

#[test]
fn beta_and_test_networks_use_their_default_peer_unless_overridden() {
    let beta = config(Networks::NanoBetaNetwork, true, None, 1);
    assert_eq!(beta.preconfigured_peers.len(), 1);
    assert_eq!(beta.preconfigured_peers[0].address, "livenet-beta.banano.cc");
    assert_eq!(beta.preconfigured_representatives, vec![beta_rep()]);
    assert_eq!(beta.max_pruning_age_s, 5 * 60);
    let test = config(Networks::NanoTestNetwork, true, None, 1);
    assert_eq!(test.preconfigured_peers[0].address, "peering-test.nano.org");
    assert!(!test.allow_local_peers);
    let overridden = config(Networks::NanoTestNetwork, true, Some(String::from("peer.example")), 1);
    assert_eq!(overridden.preconfigured_peers[0].address, "peer.example");
}

#[test]
fn thread_counts_follow_parallelism() {
    let c = config(Networks::NanoDevNetwork, true, None, 2);
    assert_eq!(c.io_threads, 4);
    assert_eq!(c.network_threads, 4);
    assert_eq!(c.signature_checker_threads, 1);
    assert_eq!(c.block_processor_threads, 2);
    let c = config(Networks::NanoDevNetwork, true, None, 16);
    assert_eq!(c.io_threads, 16);
    assert_eq!(c.work_threads, 16);
    assert_eq!(c.background_threads, 16);
    assert_eq!(c.request_aggregator_threads, 16);
    assert_eq!(c.signature_checker_threads, 8);
    assert_eq!(c.block_processor_threads, 8);
}

#[test]
fn amounts_and_other_defaults() {
    let c = config(Networks::NanoLiveNetwork, true, None, 4);
    assert_eq!(NANO_RAW, 10u128.pow(29));
    assert_eq!(MICRONANO_RAW, 10u128.pow(23));
    assert_eq!(c.receive_minimum, MICRONANO_RAW);
    assert_eq!(c.online_weight_minimum, 60_000_000 * NANO_RAW);
    assert_eq!(c.representative_vote_weight_minimum, 10 * NANO_RAW);
    assert_eq!(c.vote_minimum, 1000 * NANO_RAW);
    assert_eq!(c.rep_crawler_weight_minimum, u128::MAX);
    assert_eq!(c.external_address, "::");
    assert_eq!(c.secondary_work_peers.len(), 1);
    assert_eq!(c.secondary_work_peers[0].address, "127.0.0.1");
    assert_eq!(c.secondary_work_peers[0].port, 8076);
    assert_eq!(c.listening_port, 7075);
    assert_eq!(c.confirmation_history_size, 2048);
    assert_eq!(c.network_duplicate_filter_size, 1024 * 1024);
    let no_port = NodeConfig::new(None, Networks::NanoLiveNetwork, 7075, genesis(), beta_rep(), true, &None, 4, components());
    assert_eq!(no_port.listening_port, 0);
    assert_eq!(no_port.default_peering_port, 7075);
}

fn empty_toml() -> NodeToml {
    NodeToml {
        allow_local_peers: None,
        background_threads: None,
        backup_before_upgrade: None,
        bootstrap_fraction_numerator: None,
        bootstrap_initiator_threads: None,
        bootstrap_serving_threads: None,
        confirming_set_batch_time: None,
        enable_voting: None,
        external_address: None,
        external_port: None,
        io_threads: None,
        max_queued_requests: None,
        max_unchecked_blocks: None,
        network_threads: None,
        online_weight_minimum: None,
        password_fanout: None,
        peering_port: None,
        pow_sleep_interval: None,
        receive_minimum: None,
        rep_crawler_weight_minimum: None,
        representative_vote_weight_minimum: None,
        request_aggregator_threads: None,
        signature_checker_threads: None,
        unchecked_cutoff_time: None,
        use_memory_pools: None,
        vote_generator_delay: None,
        vote_minimum: None,
        work_threads: None,
        optimistic_scheduler: None,
        hinted_scheduler: None,
        bootstrap_ascending: None,
        httpcallback: None,
        rep_crawler: None,
        websocket: None,
        vote_processor: None,
        request_aggregator: None,
        message_processor: None,
        backlog_population: None,
        vote_cache: None,
        active_elections: None,
        monitor: None,
        bootstrap_server: None,
        priority_bucket: None,
        block_processor: None,
    }
}

#[test]
fn merging_an_empty_document_changes_nothing() {
    let mut c = config(Networks::NanoLiveNetwork, true, None, 4);
    let before = c.clone();
    c.merge_toml(&empty_toml());
    assert_eq!(c, before);
}

#[test]
fn merging_overrides_what_the_document_sets() {
    let mut c = config(Networks::NanoLiveNetwork, true, None, 4);
    let mut toml = empty_toml();
    toml.allow_local_peers = Some(true);
    toml.io_threads = Some(99);
    toml.external_address = Some(String::from("1.2.3.4"));
    toml.peering_port = Some(1234);
    toml.unchecked_cutoff_time = Some(-5);
    toml.hinted_scheduler = Some(HintedSchedulerToml {
        enable: Some(false),
        hinting_threshold: None,
        check_interval: Some(7),
        block_cooldown: None,
        vacancy_threshold: None,
    });
    toml.httpcallback = Some(HttpcallbackToml { address: Some(String::from("cb.example")), port: None, target: Some(String::from("/x")) });
    toml.rep_crawler = Some(RepCrawlerToml { query_timeout: Some(42) });
    c.merge_toml(&toml);
    assert!(c.allow_local_peers);
    assert_eq!(c.io_threads, 99);
    assert_eq!(c.external_address, "1.2.3.4");
    assert_eq!(c.listening_port, 1234);
    assert_eq!(c.unchecked_cutoff_time_s, -5);
    assert!(!c.hinted_scheduler.enabled);
    assert_eq!(c.hinted_scheduler.check_interval_ms, 7);
    // A section starts from the section's own defaults.
    assert_eq!(c.hinted_scheduler.block_cooldown_ms, 5000);
    assert_eq!(c.callback_address, "cb.example");
    assert_eq!(c.callback_port, 0);
    assert_eq!(c.callback_target, "/x");
    assert_eq!(c.rep_crawler_query_timeout_ms, 42);
    // Settings the document does not reach keep their values.
    assert_eq!(c.work_threads, 4);
    assert_eq!(c.preconfigured_peers.len(), 10);
}

#[test]
fn a_written_configuration_reads_back() {
    let mut source = config(Networks::NanoDevNetwork, true, None, 16);
    source.external_address = String::from("10.0.0.1");
    source.callback_target = String::from("/callback");
    source.password_fanout = 7;
    let toml = NodeToml::from_config(&source);
    assert_eq!(toml.io_threads, Some(16));
    let mut read = config(Networks::NanoLiveNetwork, false, None, 2);
    read.merge_toml(&toml);
    assert_eq!(read.io_threads, 16);
    assert_eq!(read.password_fanout, 7);
    assert_eq!(read.external_address, "10.0.0.1");
    assert_eq!(read.callback_target, "/callback");
    assert_eq!(read.hinted_scheduler, source.hinted_scheduler);
    assert_eq!(read.rep_crawler_query_timeout_ms, source.rep_crawler_query_timeout_ms);
    assert_eq!(read.enable_voting, source.enable_voting);
    // Not covered by the document: stays as it was.
    assert_eq!(read.tcp, TcpConfig::default());
}

#[test]
fn random_representative_is_one_of_the_preconfigured() {
    let c = config(Networks::NanoLiveNetwork, true, None, 4);
    for _ in 0..20 {
        assert_eq!(c.random_representative(), Some(genesis()));
    }
    assert_eq!(c.representative_at(0), Some(genesis()));
    assert_eq!(c.representative_at(1), None);
    let mut several = c.clone();
    several.preconfigured_representatives = vec![Hash256::new(1, 1), Hash256::new(2, 2), Hash256::new(3, 3)];
    for _ in 0..20 {
        let r = several.random_representative().unwrap();
        assert!(several.preconfigured_representatives.contains(&r));
    }
    several.preconfigured_representatives.clear();
    assert_eq!(several.random_representative(), None);
}

#[test]
fn merge_bootstrap_ascending_toml() {
    let sets_toml = AccountSetsToml {
        blocking_max: Some(200),
        consideration_count: Some(201),
        cooldown: Some(203),
        priorities_max: Some(204),
    };

    let ascending_toml = BootstrapAscendingToml {
        enable: Some(false),
        enable_databaser_scan: Some(false),
        enable_dependency_walker: Some(false),
        block_processor_threshold: Some(100),
        database_rate_limit: Some(101),
        max_pull_count: Some(102),
        channel_limit: Some(103),
        throttle_coefficient: Some(104),
        throttle_wait: Some(105),
        request_timeout: Some(106),
        max_requests: Some(107),
        database_warmup_ratio: Some(108),
        account_sets: Some(sets_toml),
    };

    let mut toml = empty_toml();
    toml.bootstrap_ascending = Some(ascending_toml);

    let mut cfg = config(Networks::NanoDevNetwork, true, None, 1);
    cfg.merge_toml(&toml);

    let ascending = &cfg.bootstrap;
    assert_eq!(ascending.enable, false);
    assert_eq!(ascending.enable_database_scan, false);
    assert_eq!(ascending.enable_dependency_walker, false);
    assert_eq!(ascending.block_processor_threshold, 100);
    assert_eq!(ascending.database_rate_limit, 101);
    assert_eq!(ascending.max_pull_count, 102);
    assert_eq!(ascending.channel_limit, 103);
    assert_eq!(ascending.throttle_coefficient, 104);
    assert_eq!(ascending.throttle_wait_ms, 105);
    assert_eq!(ascending.request_timeout_ms, 106);
    assert_eq!(ascending.max_requests, 107);
    assert_eq!(ascending.database_warmup_ratio, 108);

    let sets = &cfg.bootstrap.account_sets;
    assert_eq!(sets.blocking_max, 200);
    assert_eq!(sets.consideration_count, 201);
    assert_eq!(sets.cooldown_ms, 203);
    assert_eq!(sets.priorities_max, 204);
}

#[test]
fn create_bootstrap_ascending_toml() {
    let cfg = config(Networks::NanoDevNetwork, true, None, 1);
    let toml = NodeToml::from_config(&cfg);
    let ascending_toml = toml.bootstrap_ascending.as_ref().unwrap();
    assert_eq!(ascending_toml.enable, Some(true));
    assert_eq!(ascending_toml.enable_databaser_scan, Some(true));
    assert_eq!(ascending_toml.enable_dependency_walker, Some(true));
    assert_eq!(ascending_toml.block_processor_threshold, Some(1000));
    assert_eq!(ascending_toml.database_rate_limit, Some(256));
    assert_eq!(ascending_toml.database_warmup_ratio, Some(10));
    assert_eq!(ascending_toml.max_pull_count, Some(128));
    assert_eq!(ascending_toml.channel_limit, Some(16));
    assert_eq!(ascending_toml.throttle_coefficient, Some(1024 * 8));
    assert_eq!(ascending_toml.throttle_wait, Some(100));
    assert_eq!(ascending_toml.request_timeout, Some(3000));
    assert_eq!(ascending_toml.max_requests, Some(1024));

    let sets_toml = ascending_toml.account_sets.as_ref().unwrap();
    assert_eq!(sets_toml.consideration_count, Some(4));
    assert_eq!(sets_toml.priorities_max, Some(1024 * 256));
    assert_eq!(sets_toml.blocking_max, Some(1024 * 256));
    assert_eq!(sets_toml.cooldown, Some(3000));
}

#[test]
fn amounts_are_read_and_written_as_decimal_text() {
    let mut c = config(Networks::NanoLiveNetwork, true, None, 4);
    let written = NodeToml::from_config(&c);
    assert_eq!(written.receive_minimum.as_deref(), Some("100000000000000000000000"));
    assert_eq!(written.rep_crawler_weight_minimum.as_deref(), Some("340282366920938463463374607431768211455"));
    let mut toml = empty_toml();
    toml.receive_minimum = Some(String::from("0042"));
    toml.vote_minimum = Some(String::from("7"));
    assert_eq!(toml.invalid_setting(), None);
    c.merge_toml(&toml);
    assert_eq!(c.receive_minimum, 42);
    assert_eq!(c.vote_minimum, 7);
    assert_eq!(c.online_weight_minimum, 60_000_000 * NANO_RAW);
}

#[test]
fn invalid_amounts_are_named() {
    let mut toml = empty_toml();
    toml.vote_minimum = Some(String::from("12a"));
    assert_eq!(toml.invalid_setting(), Some(InvalidSetting::VoteMinimum));
    toml.online_weight_minimum = Some(String::new());
    assert_eq!(toml.invalid_setting(), Some(InvalidSetting::OnlineWeightMinimum));
    let mut toml = empty_toml();
    toml.rep_crawler_weight_minimum = Some(String::from("340282366920938463463374607431768211456"));
    assert_eq!(toml.invalid_setting(), Some(InvalidSetting::RepCrawlerWeightMinimum));
}

#[test]
fn component_sections_adjust_their_settings() {
    let mut c = config(Networks::NanoLiveNetwork, true, None, 4);
    assert_eq!(c.optimistic_scheduler, components().optimistic_scheduler);
    assert_eq!(c.backlog.batch_size, 10_000);
    let mut toml = empty_toml();
    toml.optimistic_scheduler = Some(OptimisticSchedulerToml { enable: Some(false), gap_threshold: None, max_size: Some(5) });
    toml.websocket = Some(WebsocketToml { address: None, enable: Some(true), port: Some(9000) });
    toml.vote_processor = Some(VoteProcessorToml { batch_size: None, max_non_pr_queue: None, max_pr_queue: None, pr_priority: Some(9), threads: Some(4) });
    toml.message_processor = Some(MessageProcessorToml { max_queue: Some(3), threads: None });
    toml.backlog_population = Some(BacklogPopulationToml { enable: Some(false), batch_size: None, frequency: Some(2) });
    toml.vote_generator_delay = Some(250);
    c.merge_toml(&toml);
    assert_eq!(c.optimistic_scheduler, OptimisticSchedulerConfig { enabled: false, gap_threshold: 32, max_size: 5 });
    assert_eq!((c.websocket_config.enabled, c.websocket_config.port, c.websocket_config.address.as_str()), (true, 9000, "::1"));
    assert_eq!((c.vote_processor.pr_priority, c.vote_processor.threads, c.vote_processor.batch_size), (9, 4, 1024));
    assert_eq!(c.message_processor, MessageProcessorConfig { threads: 1, max_queue: 3 });
    assert_eq!((c.backlog.enabled, c.backlog.batch_size, c.backlog.frequency), (false, 10_000, 2));
    assert_eq!(c.request_aggregator, components().request_aggregator);
    assert_eq!(c.vote_generator_delay_ms, 250);
}

#[test]
fn decimal_amount_text_round_trips() {
    assert_eq!(encode_dec(0), "0");
    assert_eq!(encode_dec(1234567890), "1234567890");
    assert_eq!(decode_dec("1234567890"), Some(1234567890));
    assert_eq!(decode_dec(&encode_dec(u128::MAX)), Some(u128::MAX));
    assert_eq!(decode_dec(""), None);
    assert_eq!(decode_dec("-1"), None);
    assert_eq!(decode_dec("1 000"), None);
}

#[test]
fn daemon_document_adjusts_node_opencl_and_rpc() {
    let mut d = DaemonConfig {
        node: config(Networks::NanoDevNetwork, true, None, 2),
        opencl_enable: false,
        opencl: OpenclConfig { platform: 0, device: 0, threads: 1024 * 1024 },
        rpc_enable: false,
        rpc_enable_sign_hash: false,
    };
    let mut node = empty_toml();
    node.password_fanout = Some(3);
    let toml = DaemonToml {
        node: Some(node),
        opencl: Some(OpenclToml { enable: Some(true), platform: Some(2), device: None, threads: None }),
        rpc: Some(NodeRpcToml { enable: Some(true), enable_sign_hash: None }),
    };
    d.merge_toml(&toml);
    assert_eq!(d.node.password_fanout, 3);
    assert!(d.opencl_enable);
    assert_eq!(d.opencl, OpenclConfig { platform: 2, device: 0, threads: 1024 * 1024 });
    assert!(d.rpc_enable && !d.rpc_enable_sign_hash);
    let written = DaemonToml::from_config(&d);
    assert_eq!(written.opencl.unwrap().platform, Some(2));
    assert_eq!(written.node.unwrap().password_fanout, Some(3));
}

#[test]
fn cache_election_monitor_and_queue_sections_adjust_their_settings() {
    let mut c = config(Networks::NanoLiveNetwork, true, None, 4);
    assert_eq!((c.fork_cache_max_size, c.fork_cache_max_forks_per_root, c.bootstrap_stale_threshold_ms), (1024, 10, 15_000));
    assert!(c.monitor.enabled);
    let mut toml = empty_toml();
    toml.vote_cache = Some(VoteCacheToml { max_size: Some(7), max_voters: None, age_cutoff: Some(30) });
    toml.active_elections = Some(ActiveElectionsToml {
        size: Some(99),
        hinted_limit_percentage: None,
        optimistic_limit_percentage: Some(5),
        confirmation_history_size: None,
        confirmation_cache: None,
    });
    toml.monitor = Some(MonitorToml { enable: Some(false), interval: Some(2) });
    toml.bootstrap_server = Some(BootstrapServerToml { max_queue: Some(3), threads: None, batch_size: Some(4) });
    toml.priority_bucket = Some(PriorityBucketToml { max_blocks: Some(11), max_elections: None, reserved_elections: None });
    toml.block_processor = Some(BlockProcessorToml {
        max_peer_queue: None,
        max_system_queue: Some(12),
        priority_live: None,
        priority_bootstrap: None,
        priority_local: Some(2),
    });
    c.merge_toml(&toml);
    assert_eq!((c.vote_cache.max_size, c.vote_cache.max_voters, c.vote_cache.age_cutoff_ms), (7, 64, 30_000));
    assert_eq!((c.active_elections.size, c.active_elections.hinted_limit_percentage, c.active_elections.optimistic_limit_percentage), (99, 20, 5));
    assert_eq!((c.monitor.enabled, c.monitor.interval_ms), (false, 2000));
    assert_eq!((c.bootstrap_server.max_queue, c.bootstrap_server.batch_size), (3, 4));
    assert_eq!(c.priority_bucket, PriorityBucketConfig { max_blocks: 11, max_elections: 150, reserved_elections: 100 });
    assert_eq!((c.block_processor.max_system_queue, c.block_processor.priority_local, c.block_processor.max_peer_queue), (12, 2, 128));
    let written = NodeToml::from_config(&c);
    assert_eq!(written.vote_cache.unwrap().age_cutoff, Some(30));
    assert_eq!(written.monitor.unwrap().interval, Some(2));
}
