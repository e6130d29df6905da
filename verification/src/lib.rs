//! Kubernetes resource rightsizing library.
//!
//! Turns observed container CPU/memory samples into request/limit
//! recommendations, locates and patches the matching container block in
//! multi-document YAML manifests, and drives the branch/commit/push/
//! pull-request workflow and the interactive approval state machine.

pub mod aws_region;
pub mod cli;
pub mod config;
pub mod error;
pub mod kubernetes;
pub mod manifest;
pub mod output;
pub mod quantity;
pub mod recommender;
pub mod stats;
pub mod strutil;
pub mod tui;
pub mod updater;

pub use aws_region::AwsRegion;
pub use cli::OutputFormat;
pub use config::{
    GitConnectionType, GitProvider, KubernetesConfig, RecommenderConfig, UpdaterConfig,
};
pub use error::{AwsError, ConfigError, KubernetesError, PrometheusError, RecommenderError};
pub use kubernetes::{ContainerResources, DeploymentResources};
pub use output::{OutputMetadata, PercentileConfig, RecommenderOutput};
pub use recommender::{ContainerSamples, Recommender, ResourceRecommendation};
pub use stats::UsageStats;
