//! The records that the commands and the stores exchange.

pub mod amount;
pub mod auth;
pub mod food_item;
pub mod guest;
pub mod order;
pub mod staff;
pub mod table;
