//! Decision core of an adaptive Delta Lake change-data consumer.

pub mod cli_create;
pub mod cli_enable_cdf;
pub mod cli_stream;
pub mod clock;
pub mod config;
pub mod consumer;
pub mod log_layer;
pub mod maintenance;
pub mod producer;
pub mod random;
pub mod sample_data;
pub mod sink;
pub mod source_eventhub;
pub mod state;
pub mod tables_inspect;
pub mod text;
pub mod util;
pub mod web;
