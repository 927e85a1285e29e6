//! Retention cleanup for search-engine indices: a bounded, failover-capable
//! client pool and a rule engine that lists indices by pattern, reads the
//! date embedded in each name, and deletes the ones past their retention
//! deadline, isolating failures per index, per pattern and per task.

pub mod elastic_server_config;
pub mod es_repository;
pub mod index_clear_service;
pub mod main_controller;
pub mod target_index;
pub mod time_utils;
