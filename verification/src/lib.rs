//! The control core of a terminal dashboard that supervises background
//! shell tasks and containers: bounded log buffers, the per-task state
//! machine, the switch-over between log sources, the single-flight snapshot
//! refresh and the event-driven controller that ties them together.
//!
//! The controller never performs outside work itself. Each step takes the
//! current state and an event and gives back the next state together with
//! the commands the host has to carry out.

pub mod config;
pub mod docker;
pub mod env;
pub mod inspect;
pub mod json;
pub mod laws;
pub mod logbuf;
pub mod model;
pub mod order;
pub mod rows;
pub mod state;
pub mod tasks;
pub mod text;
pub mod ui;
