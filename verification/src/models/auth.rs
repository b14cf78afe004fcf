//! Records of the sign-up and login commands.

use vstd::prelude::*;

verus! {

#[derive(Debug, PartialEq, Eq)]
pub struct SignupRequest {
    pub username: String,
    pub password: String,
    pub email: String,
    pub business_name: String,
    pub phone_number: String,
    pub pan_number: String,
    pub address: String,
    pub business_type_id: i32,
}

#[derive(Debug, PartialEq, Eq)]
pub struct SignupResponse {
    pub id: i32,
    pub email: String,
    pub username: String,
    pub access_token: String,
    pub token_type: String,
}

#[derive(Debug, PartialEq, Eq)]
pub struct LoginRequest {
    /// The e-mail address that the account was opened with.
    pub username: String,
    pub password: String,
}

#[derive(Debug, PartialEq, Eq)]
pub struct Tokens {
    pub refresh: String,
    pub access: String,
}

#[derive(Debug, PartialEq, Eq)]
pub struct LoginResponse {
    pub access_token: String,
    pub token_type: String,
    pub username: String,
}

#[derive(Debug, PartialEq, Eq)]
pub struct RefreshRequest {
    pub refresh: String,
}

#[derive(Debug, PartialEq, Eq)]
pub struct RefreshResponse {
    pub access_token: String,
    pub token_type: String,
}

} // verus!
