//! The run's result record: metadata about the run and the list of
//! recommendations.

use vstd::prelude::*;
use crate::recommender::ResourceRecommendation;

verus! {

/// The full output of one run.
#[derive(Clone, Debug)]
pub struct RecommenderOutput {
    pub metadata: OutputMetadata,
    pub recommendations: Vec<ResourceRecommendation>,
}

/// When and over what the recommendations were computed. The timestamp
/// text comes from the caller's clock.
#[derive(Clone, Debug)]
pub struct OutputMetadata {
    pub timestamp: String,
    pub namespace: Option<String>,
    pub lookback_hours: u64,
    pub total_deployments: usize,
    pub total_containers: usize,
    pub percentiles_used: PercentileConfig,
}

/// The policy the run used, echoed into the output.
#[derive(Clone, Copy, Debug, PartialEq, Eq, Structural)]
pub struct PercentileConfig {
    pub cpu_request: u64,
    pub cpu_limit: u64,
    pub memory_request: u64,
    pub memory_limit: u64,
    pub safety_margin_permille: u64,
}

impl RecommenderOutput {
    /// Assembles the output record; the container total is the number of
    /// recommendations.
    pub fn new(
        timestamp: String,
        namespace: Option<String>,
        lookback_hours: u64,
        total_deployments: usize,
        cpu_request_percentile: u64,
        cpu_limit_percentile: u64,
        memory_request_percentile: u64,
        memory_limit_percentile: u64,
        safety_margin_permille: u64,
        recommendations: Vec<ResourceRecommendation>,
    ) -> (r: Self)
        ensures
            r.metadata.timestamp == timestamp,
            r.metadata.namespace == namespace,
            r.metadata.lookback_hours == lookback_hours,
            r.metadata.total_deployments == total_deployments,
            r.metadata.total_containers == recommendations@.len(),
            r.metadata.percentiles_used == (PercentileConfig {
                cpu_request: cpu_request_percentile,
                cpu_limit: cpu_limit_percentile,
                memory_request: memory_request_percentile,
                memory_limit: memory_limit_percentile,
                safety_margin_permille,
            }),
            r.recommendations == recommendations,
    {
        let total_containers = recommendations.len();
        Self {
            metadata: OutputMetadata {
                timestamp,
                namespace,
                lookback_hours,
                total_deployments,
                total_containers,
                percentiles_used: PercentileConfig {
                    cpu_request: cpu_request_percentile,
                    cpu_limit: cpu_limit_percentile,
                    memory_request: memory_request_percentile,
                    memory_limit: memory_limit_percentile,
                    safety_margin_permille,
                },
            },
            recommendations,
        }
    }
}

} // verus!
