//! Error types of the gateway, each with the message it is reported with.

use vstd::prelude::*;
use vstd::std_specs::convert::FromSpecImpl;

verus! {

/// Errors of the statistics store.
#[derive(Debug)]
pub enum StatisticsError {
    /// The database failed.
    DatabaseError(String),
    /// The configuration is wrong.
    ConfigurationError(String),
    /// A query failed.
    QueryError(String),
}

/// The message of a statistics error.
pub open spec fn statistics_message(e: StatisticsError) -> Seq<char> {
    match e {
        StatisticsError::DatabaseError(s) => "Database error: "@ + s@,
        StatisticsError::ConfigurationError(s) => "Configuration error: "@ + s@,
        StatisticsError::QueryError(s) => "Query error: "@ + s@,
    }
}

impl StatisticsError {
    /// The error's message: its kind, a colon and the detail.
    pub fn message(&self) -> (m: String)
        ensures
            m@ == statistics_message(*self),
    {
        match self {
            StatisticsError::DatabaseError(s) => String::from_str("Database error: ").concat(
                s.as_str(),
            ),
            StatisticsError::ConfigurationError(s) => String::from_str(
                "Configuration error: ",
            ).concat(s.as_str()),
            StatisticsError::QueryError(s) => String::from_str("Query error: ").concat(s.as_str()),
        }
    }
}

impl From<String> for StatisticsError {
    /// A bare message is a configuration error.
    fn from(s: String) -> (e: Self) {
        StatisticsError::ConfigurationError(s)
    }
}

impl FromSpecImpl<String> for StatisticsError {
    open spec fn obeys_from_spec() -> bool {
        true
    }

    open spec fn from_spec(v: String) -> StatisticsError {
        StatisticsError::ConfigurationError(v)
    }
}

/// Why no backend could be selected.
#[derive(Debug, Clone)]
pub enum RoutingError {
    /// No backend is available.
    NoAvailableBackend,
    /// Connecting to the backend at this address failed.
    BackendConnectionFailed(String),
    /// The health check of the backend at this address failed.
    HealthCheckFailed(String),
}

/// The message of a routing error.
pub open spec fn routing_message(e: RoutingError) -> Seq<char> {
    match e {
        RoutingError::NoAvailableBackend => "No available backend"@,
        RoutingError::BackendConnectionFailed(a) => "Backend connection failed: "@ + a@,
        RoutingError::HealthCheckFailed(a) => "Backend health check failed: "@ + a@,
    }
}

impl RoutingError {
    /// The error's message.
    pub fn message(&self) -> (m: String)
        ensures
            m@ == routing_message(*self),
    {
        match self {
            RoutingError::NoAvailableBackend => String::from_str("No available backend"),
            RoutingError::BackendConnectionFailed(a) => String::from_str(
                "Backend connection failed: ",
            ).concat(a.as_str()),
            RoutingError::HealthCheckFailed(a) => String::from_str(
                "Backend health check failed: ",
            ).concat(a.as_str()),
        }
    }
}

} // verus!
