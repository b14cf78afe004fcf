//! Order rows and order lines. Amounts are carried as [`Amount`] bit patterns.

use crate::models::amount::Amount;
use vstd::prelude::*;

verus! {

#[derive(Debug, PartialEq, Eq)]
pub struct OrderCreate {
    pub business_id: i32,
    pub order_number: String,
    pub table_id: i32,
    pub guest_id: i32,
    pub order_type_id: i32,
    pub status_id: i32,
    pub subtotal: Amount,
    pub tax: Amount,
    pub discount: Amount,
    pub total_amount: Amount,
    pub notes: String,
    pub served_by: i32,
}

#[derive(Debug, PartialEq, Eq)]
pub struct OrderItem {
    pub id: i64,
    pub order_id: i32,
    pub food_item_id: i32,
    pub quantity: i32,
    pub unit_price: Amount,
    pub total_price: Amount,
    pub status_id: i32,
    pub special_instructions: Option<String>,
}

#[derive(Debug, PartialEq, Eq)]
pub struct OrderItemCreate {
    pub order_id: i32,
    pub food_item_id: i32,
    pub quantity: i32,
    pub unit_price: Amount,
    pub total_price: Amount,
    pub status_id: i32,
    pub special_instructions: Option<String>,
}

#[derive(Debug, PartialEq, Eq)]
pub struct OrderCreateResponse {
    pub message: String,
    pub order: OrderCreate,
}

} // verus!
