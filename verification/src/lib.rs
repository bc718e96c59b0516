//! Missions: several agent threads working on one task, the context they share
//! and what a person watching them is shown.

pub mod laws;
pub mod lists;
pub mod mcp_server;
pub mod mission_changes;
pub mod mission_context_observer;
pub mod mission_id;
pub mod mission_orchestrator;
pub mod mission_panel;
pub mod mission_snapshot;
pub mod mission_tree;
pub mod mission_views;
pub mod shared_context;
pub mod text;
pub mod thread;
pub mod time;
pub mod token_count;
pub mod ui;
pub mod worker_dashboard;
