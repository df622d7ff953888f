//! The first, minimal user lookup: no stored users, only the configured
//! admin account.
use vstd::prelude::*;
use crate::credentials::{bcrypt_verify, hash_password};
use crate::text::str_eq;

verus! {

/// A user as the minimal lookup knows it.
#[derive(Debug)]
pub struct User {
    pub username: String,
    pub password_hash: Option<String>,
}

/// The stored user of that name; this lookup stores none.
pub fn get_from_database(username: String) -> (r: Option<User>)
    ensures
        r is None,
{
    None
}

/// Looks a user up: a stored one first, else the admin account when its
/// name matches, with its password hashed afresh (`None` where hashing
/// fails). `admin_user` and `admin_password` are the configured ones.
pub fn retrive_user(username: String, admin_user: &str, admin_password: &str) -> (r: Option<User>)
    ensures
        username@ == admin_user@ <==> r is Some,
        r matches Some(u) ==> u.username@ == username@ && (u.password_hash matches Some(h)
            ==> bcrypt_verify(admin_password@, h@) == Some(true)),
{
    if let Some(user) = get_from_database(username.clone()) {
        Some(user)
    } else if str_eq(username.as_str(), admin_user) {
        let password_hash = match hash_password(admin_password) {
            Ok(h) => Some(h),
            Err(_) => None,
        };
        Some(User { username, password_hash })
    } else {
        None
    }
}

} // verus!
