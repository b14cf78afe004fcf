//! Staff rows and the answers of the staff commands.

use vstd::prelude::*;

verus! {

#[derive(Debug, PartialEq, Eq)]
pub struct StaffCreate {
    pub business_id: i32,
    pub role_id: i32,
    pub shift_id: i32,
    pub status_id: i32,
    pub name: String,
    pub phone: String,
    pub password: String,
}

#[derive(Debug, PartialEq, Eq)]
pub struct StaffCreateResponse {
    pub message: String,
    pub staff: StaffCreate,
}

#[derive(Clone, Copy, Debug, PartialEq, Eq)]
pub struct StaffDelete {
    pub id: i32,
}

#[derive(Debug, PartialEq, Eq)]
pub struct StaffDeleteResponse {
    pub message: String,
}

#[derive(Debug, PartialEq, Eq)]
pub struct StaffUpdate {
    pub id: i32,
    pub business_id: i32,
    pub role_id: i32,
    pub shift_id: i32,
    pub status_id: i32,
    pub name: String,
    pub phone: String,
    pub password: String,
}

#[derive(Debug, PartialEq, Eq)]
pub struct StaffUpdateResponse {
    pub message: String,
    pub staff: StaffUpdate,
}

} // verus!
