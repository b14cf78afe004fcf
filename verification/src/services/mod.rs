//! The services of the synchronisation core.

pub mod db_service;
pub mod sync_service;
pub mod websocket_service;
