//! HTTP status codes the library answers with, and the error the stores
//! return.
use vstd::prelude::*;

verus! {

pub const OK: u16 = 200;

pub const CREATED: u16 = 201;

pub const NO_CONTENT: u16 = 204;

pub const BAD_REQUEST: u16 = 400;

pub const UNAUTHORIZED: u16 = 401;

pub const NOT_FOUND: u16 = 404;

pub const CONFLICT: u16 = 409;

pub const UNPROCESSABLE_ENTITY: u16 = 422;

pub const INTERNAL_SERVER_ERROR: u16 = 500;

pub const NOT_IMPLEMENTED: u16 = 501;

pub const SERVICE_UNAVAILABLE: u16 = 503;

/// An error of a store operation, carrying the HTTP status to answer with.
#[derive(Debug, Clone, Copy, PartialEq, Eq, Structural)]
pub enum DatabaseError {
    StatusCode(u16),
}

/// The HTTP status that a store error stands for.
pub fn resolve_database_error_into_statuscode(error: DatabaseError) -> (r: u16)
    ensures
        error == DatabaseError::StatusCode(r),
{
    match error {
        DatabaseError::StatusCode(status_code) => status_code,
    }
}

} // verus!
