//! Offline-first synchronisation core of a multi-terminal point of sale:
//! a pending-mutation queue, the worker decisions that drain it, and the
//! hub that fans events out to the connected terminals.

pub mod auth;
pub mod commands;
pub mod forward;
pub mod json;
pub mod models;
pub mod remote_api;
pub mod rows;
pub mod services;
pub mod sync_queue;
pub mod text;
