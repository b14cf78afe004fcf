//! Guest rows.

use vstd::prelude::*;

verus! {

#[derive(Debug, PartialEq, Eq)]
pub struct Guest {
    pub id: i64,
    pub business_id: i32,
    pub name: String,
    pub phone: String,
    pub verify_id: i32,
    pub status_id: i32,
    pub created_at: Option<String>,
    pub updated_at: Option<String>,
}

#[derive(Debug, PartialEq, Eq)]
pub struct GuestCreate {
    pub business_id: i32,
    pub name: String,
    pub phone: String,
    pub verify_id: i32,
    pub status_id: i32,
}

#[derive(Debug, PartialEq, Eq)]
pub struct GuestUpdate {
    pub name: Option<String>,
    pub phone: Option<String>,
    pub verify_id: Option<i32>,
    pub status_id: Option<i32>,
}

} // verus!
