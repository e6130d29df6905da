//! The error taxonomy of the library. Each enum carries plain strings
//! and renders a human-readable message through `message`; outside error
//! values are turned into their message strings before they get here.

use vstd::prelude::*;

verus! {

/// Main error type of the recommender.
#[derive(Debug)]
pub enum RecommenderError {
    Aws(AwsError),
    Prometheus(PrometheusError),
    Kubernetes(KubernetesError),
    Config(ConfigError),
    Io(String),
    Parse(String),
    Network(String),
    InvalidInput(String),
    NotFound(String),
    InsufficientData(String),
    ApplyError(String),
    Other(String),
}

/// Errors from the metrics store's cloud side.
#[derive(Debug)]
pub enum AwsError {
    AuthenticationFailed(String),
    PermissionDenied(String),
    ServiceError(String),
    InvalidRegion(String),
    ResourceNotFound(String),
    RateLimited(String),
}

/// Errors from the metrics queries.
#[derive(Debug)]
pub enum PrometheusError {
    ConnectionFailed(String),
    ConnectionError(String),
    AuthenticationFailed,
    InvalidQuery(String),
    QueryFailed(String),
    QueryError(String),
    NoData(String),
    InvalidResponse(String),
    Timeout(String),
}

/// Errors from the cluster inventory.
#[derive(Debug)]
pub enum KubernetesError {
    ConnectionFailed(String),
    ResourceNotFound(String),
    InvalidResource(String),
    ApiError(String),
}

/// Errors in the configuration.
#[derive(Debug)]
pub enum ConfigError {
    MissingRequired(String),
    InvalidValue(String),
    FileError(String),
}

pub open spec fn aws_error_message(e: AwsError) -> Seq<char> {
    match e {
        AwsError::AuthenticationFailed(s) => "Authentication failed: "@ + s@,
        AwsError::PermissionDenied(s) => "Permission denied: "@ + s@,
        AwsError::ServiceError(s) => "AWS service error: "@ + s@,
        AwsError::InvalidRegion(s) => "Invalid region: "@ + s@,
        AwsError::ResourceNotFound(s) => "Resource not found: "@ + s@,
        AwsError::RateLimited(s) => "Rate limited: "@ + s@,
    }
}

pub open spec fn prometheus_error_message(e: PrometheusError) -> Seq<char> {
    match e {
        PrometheusError::ConnectionFailed(s) => "Connection failed: "@ + s@,
        PrometheusError::ConnectionError(s) => "Connection error: "@ + s@,
        PrometheusError::AuthenticationFailed => "Authentication failed"@,
        PrometheusError::InvalidQuery(s) => "Invalid query: "@ + s@,
        PrometheusError::QueryFailed(s) => "Query failed: "@ + s@,
        PrometheusError::QueryError(s) => "Query error: "@ + s@,
        PrometheusError::NoData(s) => "No data: "@ + s@,
        PrometheusError::InvalidResponse(s) => "Invalid response: "@ + s@,
        PrometheusError::Timeout(s) => "Timeout: "@ + s@,
    }
}

pub open spec fn kubernetes_error_message(e: KubernetesError) -> Seq<char> {
    match e {
        KubernetesError::ConnectionFailed(s) => "Connection failed: "@ + s@,
        KubernetesError::ResourceNotFound(s) => "Resource not found: "@ + s@,
        KubernetesError::InvalidResource(s) => "Invalid resource: "@ + s@,
        KubernetesError::ApiError(s) => "API error: "@ + s@,
    }
}

pub open spec fn config_error_message(e: ConfigError) -> Seq<char> {
    match e {
        ConfigError::MissingRequired(s) => "Missing required: "@ + s@,
        ConfigError::InvalidValue(s) => "Invalid value: "@ + s@,
        ConfigError::FileError(s) => "File error: "@ + s@,
    }
}

pub open spec fn recommender_error_message(e: RecommenderError) -> Seq<char> {
    match e {
        RecommenderError::Aws(inner) => "AWS error: "@ + aws_error_message(inner),
        RecommenderError::Prometheus(inner) => "Prometheus error: "@ + prometheus_error_message(
            inner,
        ),
        RecommenderError::Kubernetes(inner) => "Kubernetes error: "@ + kubernetes_error_message(
            inner,
        ),
        RecommenderError::Config(inner) => "Configuration error: "@ + config_error_message(
            inner,
        ),
        RecommenderError::Io(s) => "I/O error: "@ + s@,
        RecommenderError::Parse(s) => "Parse error: "@ + s@,
        RecommenderError::Network(s) => "Network error: "@ + s@,
        RecommenderError::InvalidInput(s) => "Invalid input: "@ + s@,
        RecommenderError::NotFound(s) => "Not found: "@ + s@,
        RecommenderError::InsufficientData(s) => "Insufficient data: "@ + s@,
        RecommenderError::ApplyError(s) => s@,
        RecommenderError::Other(s) => s@,
    }
}

impl AwsError {
    pub fn message(&self) -> (r: String)
        ensures
            r@ == aws_error_message(*self),
    {
        match self {
            AwsError::AuthenticationFailed(s) => prefixed("Authentication failed: ", s),
            AwsError::PermissionDenied(s) => prefixed("Permission denied: ", s),
            AwsError::ServiceError(s) => prefixed("AWS service error: ", s),
            AwsError::InvalidRegion(s) => prefixed("Invalid region: ", s),
            AwsError::ResourceNotFound(s) => prefixed("Resource not found: ", s),
            AwsError::RateLimited(s) => prefixed("Rate limited: ", s),
        }
    }
}

impl PrometheusError {
    pub fn message(&self) -> (r: String)
        ensures
            r@ == prometheus_error_message(*self),
    {
        match self {
            PrometheusError::ConnectionFailed(s) => prefixed("Connection failed: ", s),
            PrometheusError::ConnectionError(s) => prefixed("Connection error: ", s),
            PrometheusError::AuthenticationFailed => String::from_str("Authentication failed"),
            PrometheusError::InvalidQuery(s) => prefixed("Invalid query: ", s),
            PrometheusError::QueryFailed(s) => prefixed("Query failed: ", s),
            PrometheusError::QueryError(s) => prefixed("Query error: ", s),
            PrometheusError::NoData(s) => prefixed("No data: ", s),
            PrometheusError::InvalidResponse(s) => prefixed("Invalid response: ", s),
            PrometheusError::Timeout(s) => prefixed("Timeout: ", s),
        }
    }
}

impl KubernetesError {
    pub fn message(&self) -> (r: String)
        ensures
            r@ == kubernetes_error_message(*self),
    {
        match self {
            KubernetesError::ConnectionFailed(s) => prefixed("Connection failed: ", s),
            KubernetesError::ResourceNotFound(s) => prefixed("Resource not found: ", s),
            KubernetesError::InvalidResource(s) => prefixed("Invalid resource: ", s),
            KubernetesError::ApiError(s) => prefixed("API error: ", s),
        }
    }
}

impl ConfigError {
    pub fn message(&self) -> (r: String)
        ensures
            r@ == config_error_message(*self),
    {
        match self {
            ConfigError::MissingRequired(s) => prefixed("Missing required: ", s),
            ConfigError::InvalidValue(s) => prefixed("Invalid value: ", s),
            ConfigError::FileError(s) => prefixed("File error: ", s),
        }
    }
}

impl RecommenderError {
    pub fn message(&self) -> (r: String)
        ensures
            r@ == recommender_error_message(*self),
    {
        match self {
            RecommenderError::Aws(inner) => {
                let mut m = String::from_str("AWS error: ");
                let im = inner.message();
                m.append(im.as_str());
                m
            },
            RecommenderError::Prometheus(inner) => {
                let mut m = String::from_str("Prometheus error: ");
                let im = inner.message();
                m.append(im.as_str());
                m
            },
            RecommenderError::Kubernetes(inner) => {
                let mut m = String::from_str("Kubernetes error: ");
                let im = inner.message();
                m.append(im.as_str());
                m
            },
            RecommenderError::Config(inner) => {
                let mut m = String::from_str("Configuration error: ");
                let im = inner.message();
                m.append(im.as_str());
                m
            },
            RecommenderError::Io(s) => prefixed("I/O error: ", s),
            RecommenderError::Parse(s) => prefixed("Parse error: ", s),
            RecommenderError::Network(s) => prefixed("Network error: ", s),
            RecommenderError::InvalidInput(s) => prefixed("Invalid input: ", s),
            RecommenderError::NotFound(s) => prefixed("Not found: ", s),
            RecommenderError::InsufficientData(s) => prefixed("Insufficient data: ", s),
            RecommenderError::ApplyError(s) => s.clone(),
            RecommenderError::Other(s) => s.clone(),
        }
    }
}

fn prefixed(prefix: &str, body: &String) -> (r: String)
    ensures
        r@ == prefix@ + body@,
{
    let mut m = prefix.to_owned();
    m.append(body.as_str());
    m
}

} // verus!
