use rsnano_node::config::{
    BootstrapConfig, HttpcallbackToml, OptimisticSchedulerConfig, OptimisticSchedulerToml, RepCrawlerToml,
    BacklogPopulationConfig, BacklogPopulationToml, BootstrapConstants, HintedSchedulerConfig, HintedSchedulerToml,
    MessageProcessorConfig, MessageProcessorToml, NetworkConstants, Networks, RequestAggregatorConfig,
    RequestAggregatorToml, StatsConfig, TcpConfig, TxnTrackingConfig, VoteProcessorConfig, VoteProcessorToml,
    VotingConstants, WebsocketConfig, WebsocketToml,
};
use rsnano_node::paths::working_path;

#[test]
fn backlog_merge_overrides_given_values() {
    let mut config = BacklogPopulationConfig::default();
    config.merge_toml(&BacklogPopulationToml { enable: Some(false), batch_size: None, frequency: Some(3) });
    assert_eq!(config, BacklogPopulationConfig { enabled: false, batch_size: 10_000, frequency: 3 });
    let toml = BacklogPopulationToml::from_config(&config);
    let mut other = BacklogPopulationConfig::default();
    other.merge_toml(&toml);
    assert_eq!(other, config);
}

#[test]
fn hinted_scheduler_config_from_toml() {
    let toml = HintedSchedulerToml {
        enable: Some(false),
        hinting_threshold: Some(99),
        check_interval: None,
        block_cooldown: Some(999),
        vacancy_threshold: None,
    };
    let config = HintedSchedulerConfig::from_toml(&toml);
    assert_eq!(config.enabled, false);
    assert_eq!(config.hinting_threshold_percent, 99);
    assert_eq!(config.check_interval_ms, 1000);
    assert_eq!(config.block_cooldown_ms, 999);
    assert_eq!(config.vacancy_threshold_percent, 20);
    assert_eq!(HintedSchedulerConfig::from_toml(&HintedSchedulerToml::default()), HintedSchedulerConfig::default());
    let dev = HintedSchedulerConfig::default_for_dev_network();
    assert_eq!((dev.check_interval_ms, dev.block_cooldown_ms), (100, 100));
}

#[test]
fn section_merges() {
    let mut m = MessageProcessorConfig { threads: 1, max_queue: 2 };
    m.merge_toml(&MessageProcessorToml { max_queue: Some(64), threads: None });
    assert_eq!(m, MessageProcessorConfig { threads: 1, max_queue: 64 });
    assert_eq!(MessageProcessorToml::from_config(&m).max_queue, Some(64));

    let mut r = RequestAggregatorConfig { threads: 1, max_queue: 2, batch_size: 3 };
    r.merge_toml(&RequestAggregatorToml { batch_size: Some(9), max_queue: None, threads: Some(4) });
    assert_eq!(r, RequestAggregatorConfig { threads: 4, max_queue: 2, batch_size: 9 });
    assert_eq!(RequestAggregatorToml::from_config(&r).threads, Some(4));

    let mut v = VoteProcessorConfig { max_pr_queue: 1, max_non_pr_queue: 2, pr_priority: 3, threads: 4, batch_size: 5 };
    v.merge_toml(&VoteProcessorToml { batch_size: None, max_non_pr_queue: Some(20), max_pr_queue: None, pr_priority: Some(30), threads: None });
    assert_eq!(v, VoteProcessorConfig { max_pr_queue: 1, max_non_pr_queue: 20, pr_priority: 30, threads: 4, batch_size: 5 });
    assert_eq!(VoteProcessorToml::from_config(&v).pr_priority, Some(30));

    let mut w = WebsocketConfig { enabled: false, port: 7078, address: "::1".to_string() };
    w.merge_toml(&WebsocketToml { address: Some("0:0:0:0:0:ffff:7f01:101".to_string()), enable: Some(true), port: None });
    assert_eq!(w.address, "0:0:0:0:0:ffff:7f01:101");
    assert!(w.enabled);
    assert_eq!(w.port, 7078);
    assert_eq!(WebsocketToml::from_config(&w).address, Some("0:0:0:0:0:ffff:7f01:101".to_string()));
}

#[test]
fn defaults() {
    let tcp = TcpConfig::default();
    assert_eq!((tcp.max_inbound_connections, tcp.max_attempts, tcp.connect_timeout_ms), (2048, 60, 60_000));
    let dev = TcpConfig::for_dev_network();
    assert_eq!((dev.max_attempts_per_ip, dev.connect_timeout_ms), (128, 5_000));
    let stats = StatsConfig::new();
    assert_eq!(stats.log_counters_filename, "counters.stat");
    assert_eq!(stats.max_samples, 16 * 1024);
    let txn = TxnTrackingConfig::new();
    assert_eq!((txn.enable, txn.min_read_txn_time_ms, txn.min_write_txn_time_ms), (false, 5000, 500));
}

#[test]
fn network_constants() {
    let dev = NetworkConstants { current_network: Networks::NanoDevNetwork };
    let live = NetworkConstants { current_network: Networks::NanoLiveNetwork };
    assert_eq!(BootstrapConstants::new(&dev).lazy_max_pull_blocks, 2);
    let b = BootstrapConstants::new(&live);
    assert_eq!((b.lazy_retry_limit, b.lazy_destinations_retry_limit, b.default_frontiers_age_seconds), (64, 4, 86_400));
    assert_eq!(VotingConstants::new(&dev).max_cache, 256);
    assert_eq!(VotingConstants::new(&live).delay_s, 15);
}

#[test]
fn working_paths() {
    assert_eq!(working_path(Some("/data".to_string()), Some("/home/u".to_string()), Networks::NanoLiveNetwork), Some("/data".to_string()));
    assert_eq!(working_path(None, Some("/home/u".to_string()), Networks::NanoLiveNetwork), Some("/home/u/Banano".to_string()));
    assert_eq!(working_path(None, Some("/home/u".to_string()), Networks::NanoDevNetwork), Some("/home/u/NanoDev".to_string()));
    assert_eq!(working_path(None, Some("/home/u".to_string()), Networks::Invalid), None);
    assert_eq!(working_path(None, None, Networks::NanoBetaNetwork), None);
}

#[test]
fn optimistic_scheduler_section() {
    let base = OptimisticSchedulerConfig { enabled: true, gap_threshold: 32, max_size: 65536 };
    let toml = OptimisticSchedulerToml { enable: Some(false), gap_threshold: None, max_size: Some(10) };
    assert_eq!(toml.to_config(&base), OptimisticSchedulerConfig { enabled: false, gap_threshold: 32, max_size: 10 });
    let round = OptimisticSchedulerToml::from_config(&base);
    assert_eq!(round, OptimisticSchedulerToml { enable: Some(true), gap_threshold: Some(32), max_size: Some(65536) });
    let other = OptimisticSchedulerConfig { enabled: false, gap_threshold: 1, max_size: 2 };
    assert_eq!(round.to_config(&other), base);
}

#[test]
fn http_callback_section_overrides_given_values() {
    let mut address = String::from("::1");
    let mut port: u16 = 0;
    let mut target = String::new();
    let toml = HttpcallbackToml { address: None, port: Some(8080), target: Some(String::from("/cb")) };
    toml.merge_into(&mut address, &mut port, &mut target);
    assert_eq!(address, "::1");
    assert_eq!(port, 8080);
    assert_eq!(target, "/cb");
    let all = HttpcallbackToml::from_values(&String::from("a"), 1, &String::from("t"));
    assert_eq!(all, HttpcallbackToml { address: Some(String::from("a")), port: Some(1), target: Some(String::from("t")) });
}

#[test]
fn rep_crawler_section() {
    let mut timeout: u64 = 1000;
    RepCrawlerToml { query_timeout: None }.merge_into(&mut timeout);
    assert_eq!(timeout, 1000);
    RepCrawlerToml { query_timeout: Some(250) }.merge_into(&mut timeout);
    assert_eq!(timeout, 250);
    assert_eq!(RepCrawlerToml::from_query_timeout(7).query_timeout, Some(7));
}

#[test]
fn bootstrap_config_defaults() {
    let c = BootstrapConfig::default();
    assert!(c.enable && c.enable_priorities && c.enable_dependency_walker && c.enable_frontier_scan);
    assert_eq!(c.channel_limit, 16);
    assert_eq!(c.rate_limit, 500);
    assert_eq!(c.database_rate_limit, 256);
    assert_eq!(c.frontier_rate_limit, 8);
    assert_eq!(c.database_warmup_ratio, 10);
    assert_eq!(c.max_pull_count, 128);
    assert_eq!(c.request_timeout_ms, 3000);
    assert_eq!(c.throttle_coefficient, 8192);
    assert_eq!(c.throttle_wait_ms, 100);
    assert_eq!(c.block_processor_threshold, 1000);
    assert_eq!(c.min_protocol_version, 0x12);
    assert_eq!(c.max_requests, 1024);
    assert_eq!(c.optimistic_request_percentage, 75);
    assert_eq!(c.max_pending_frontier_responses, 16);
}
