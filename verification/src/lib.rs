//! Firewall log ingestion: parsing, routing, adaptive field learning and storage rules.
pub mod text;
pub mod event;
pub mod adaptive;
pub mod scope;
pub mod route;
pub mod metrics;
pub mod diagnostics;
pub mod regex_support;
pub mod calendar;
pub mod sangfor;
pub mod generic;
pub mod rule;
pub mod ip;
pub mod learn;
pub mod control;
pub mod engine;
pub mod config;
pub mod spool;
pub mod store;
pub mod api;
pub mod paths;
pub mod governor;
pub mod dual_db;
pub mod archive;
pub mod hybrid;
pub mod parquet_search;
pub mod cold_search;
pub mod rollup;
pub mod worker;
pub mod export;
pub mod frozen_index;
pub mod import;
pub mod rows;
pub mod remote;
pub mod unified;
pub mod region_db;
pub mod laws;
pub mod field_laws;
