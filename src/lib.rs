pub mod actions;
pub mod args;
pub mod asset;
pub mod container;
pub mod dedup;
pub mod hash;
pub mod laws;
pub mod log_level;
pub mod paths;
pub mod pipeline;
pub mod plugins;
pub mod profiler;
pub mod queue;
pub mod transformer_container;
pub mod transformer_context;
pub mod transformer_result;
