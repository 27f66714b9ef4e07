//! Error taxonomy of the persistence core, the API facade, and the
//! analytics engine.

use vstd::prelude::*;

verus! {

/// Persistence-layer errors. Hot-tier transport failures carry a message;
/// cold-tier failures carry a kind string; a missing key is not an error on
/// reads but `CacheMiss` surfaces it where stale data is unacceptable.
#[derive(Debug)]
pub enum PersistenceError {
    HotStore(String),
    ColdStore(String),
    Serialization(String),
    NotFound { entity_type: String, key: String },
    PoolExhausted,
    Timeout { timeout_ms: u64 },
    InvalidQuery(String),
    CacheMiss(String),
    WriteConflict(String),
}

/// API-level errors, each with an HTTP status and a stable error code.
#[derive(Debug)]
pub enum ApiError {
    NotFound { entity_type: String, id: String },
    InvalidInput(String),
    InvalidUuid(String),
    Persistence(PersistenceError),
    Unauthorized(String),
    RateLimited { retry_after_secs: u64 },
    Internal(String),
}

impl ApiError {
    /// The HTTP status code for this error: 404 for a missing entity, 400
    /// for bad input or a malformed id, 401 for unauthorized, 429 for rate
    /// limiting, 500 otherwise.
    pub fn status_code(&self) -> (s: u16)
        ensures
            s == match self {
                ApiError::NotFound { .. } => 404u16,
                ApiError::InvalidInput(_) => 400u16,
                ApiError::InvalidUuid(_) => 400u16,
                ApiError::Unauthorized(_) => 401u16,
                ApiError::RateLimited { .. } => 429u16,
                ApiError::Persistence(_) => 500u16,
                ApiError::Internal(_) => 500u16,
            },
    {
        match self {
            ApiError::NotFound { .. } => 404,
            ApiError::InvalidInput(_) | ApiError::InvalidUuid(_) => 400,
            ApiError::Unauthorized(_) => 401,
            ApiError::RateLimited { .. } => 429,
            ApiError::Persistence(_) | ApiError::Internal(_) => 500,
        }
    }

    /// The stable error code carried in the response extensions.
    pub fn error_code(&self) -> (c: &'static str)
        ensures
            c@ == self.spec_error_code(),
    {
        match self {
            ApiError::NotFound { .. } => "NOT_FOUND",
            ApiError::InvalidInput(_) => "INVALID_INPUT",
            ApiError::InvalidUuid(_) => "INVALID_UUID",
            ApiError::Unauthorized(_) => "UNAUTHORIZED",
            ApiError::RateLimited { .. } => "RATE_LIMITED",
            ApiError::Persistence(_) => "PERSISTENCE_ERROR",
            ApiError::Internal(_) => "INTERNAL_ERROR",
        }
    }

    pub open spec fn spec_error_code(&self) -> Seq<char> {
        match self {
            ApiError::NotFound { .. } => "NOT_FOUND"@,
            ApiError::InvalidInput(_) => "INVALID_INPUT"@,
            ApiError::InvalidUuid(_) => "INVALID_UUID"@,
            ApiError::Unauthorized(_) => "UNAUTHORIZED"@,
            ApiError::RateLimited { .. } => "RATE_LIMITED"@,
            ApiError::Persistence(_) => "PERSISTENCE_ERROR"@,
            ApiError::Internal(_) => "INTERNAL_ERROR"@,
        }
    }
}

/// Analytics-engine errors.
#[derive(Debug)]
pub enum AnalyticsError {
    Query(String),
    Conversion(String),
    InvalidParameter(String),
    NoData,
}

} // verus!
