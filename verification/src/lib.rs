//! Verified core of the Arkavo agent protocol: data classification, taint
//! labels and their monotonic propagation, the taxonomy map and policy join.

pub mod data_classification;
pub mod strings;
pub mod taint;
pub mod taint_ledger;
pub mod sequence_graph;
pub mod taint_inference;
pub mod taint_tracker;
pub mod error;
pub mod sequence_error;
pub mod rlm;
pub mod task_status;
pub mod security;
pub mod string_set;
pub mod taxonomy;
pub mod policy_join;
pub mod task_contract;
pub mod rate_limit;
pub mod security_fixes;
pub mod agent_config;
pub mod capabilities;
pub mod ws_url;
pub mod push_notifications;
pub mod episode;
pub mod transport;
pub mod peer_manager;
pub mod keyed;
pub mod oauth2;
pub mod registration;
pub mod task_executor;
pub mod openrpc;
pub mod notifications;
pub mod conductor;
pub mod config_backups;
pub mod failover;
pub mod chat_stream;
