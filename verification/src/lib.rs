pub mod aggregator;
pub mod channel;
pub mod config;
pub mod event;
pub mod hist;
pub mod ids;
pub mod laws;
pub mod model;
pub mod stats;
pub mod task_data;
