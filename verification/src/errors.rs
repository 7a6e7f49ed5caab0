//! The error taxonomy of the service, and its mapping onto HTTP statuses.
//!
//! None of these errors is retried or handled internally: each one is
//! translated directly into an HTTP response.

use vstd::prelude::*;

verus! {

/// Everything that can go wrong while serving a request.
///
/// `NotFound` means no row matched an expected id. `PGError` is any failure
/// of the relational store itself, constraint violations included.
/// `PGMError` is a row that could not be decoded into the expected record
/// shape, and `PoolError` is a connection pool with no connection to give.
#[derive(Clone, Copy, Debug, PartialEq, Eq, Structural)]
pub enum MyError {
    NotFound,
    PGError,
    PGMError,
    PoolError,
}

impl MyError {
    /// The HTTP status this error is reported as: 404 for a missing row,
    /// 500 for everything else.
    pub fn status_code(&self) -> (code: u16)
        ensures
            code == (if *self == MyError::NotFound {
                404u16
            } else {
                500u16
            }),
    {
        match self {
            MyError::NotFound => 404,
            MyError::PGError => 500,
            MyError::PGMError => 500,
            MyError::PoolError => 500,
        }
    }

    /// A short description of the error, suitable for a response body.
    pub fn message(&self) -> (msg: String)
        ensures
            *self == MyError::NotFound ==> msg@ == "Not Found"@,
            *self == MyError::PGError ==> msg@ == "PGError"@,
            *self == MyError::PGMError ==> msg@ == "PGMError"@,
            *self == MyError::PoolError ==> msg@ == "PoolError"@,
    {
        match self {
            MyError::NotFound => String::from_str("Not Found"),
            MyError::PGError => String::from_str("PGError"),
            MyError::PGMError => String::from_str("PGMError"),
            MyError::PoolError => String::from_str("PoolError"),
        }
    }
}

} // verus!
