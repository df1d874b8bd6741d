//! Verified core logic of a Nano node: bounded caches, queues, election
//! bookkeeping, scheduling decisions and configuration merging.

pub mod clock;
pub mod numbers;
pub mod amount_text;
pub mod seqs;
pub mod throttle;
pub mod bootstrap_attempts;
pub mod vote;
pub mod vote_cache;
pub mod recently_confirmed;
pub mod ordered_tags;
pub mod unchecked;
pub mod election;
pub mod active_elections;
pub mod config;
pub mod scheduling;
pub mod processing_queue;
pub mod buffer_reader;
pub mod paths;
pub mod pulls_cache;
pub mod bootstrap_weights;
pub mod wallet_representatives;
pub mod txn_tracking;
pub mod vote_applier;
pub mod election_blocks;
pub mod bootstrap_lazy;
pub mod bootstrap_server;
pub mod database_scan;
pub mod backlog;
pub mod request_aggregator;
pub mod vote_cache_processor;
pub mod bulk_push;
pub mod handshake;
pub mod node_config;
pub mod daemon_config;
pub mod wallet_actions;
pub mod node_maintenance;
pub mod message_filter;
pub mod recently_cemented;
