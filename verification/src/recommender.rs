//! The recommendation engine: turns per-container usage statistics into
//! sized request/limit quantity strings and a human-readable rationale.
//!
//! Request values re-apply the configured percentile over the pair
//! `(p50, p95)` of the underlying statistics, limit values over
//! `(p95, p99)`, with the same nearest-rank rule as the statistics
//! themselves; the result is then scaled by the safety margin.

use vstd::prelude::*;
use crate::config::RecommenderConfig;
use crate::kubernetes::{ContainerResources, DeploymentResources};
use crate::quantity::{
    cpu_cores_3dp, cpu_quantity, format_cpu_cores_3dp, format_cpu_value, format_mem_mib_whole,
    format_memory_value, mem_mib_whole, memory_quantity, nat_min,
};
use crate::stats::{
    calculate_stats, percentile, percentile_of_sorted, stats_of, UsageStats,
};

verus! {

/// Recommendation for one container's resource sizing.
#[derive(Clone, Debug)]
pub struct ResourceRecommendation {
    pub deployment: String,
    pub container: String,
    pub namespace: String,
    pub current_cpu_request: String,
    pub current_cpu_limit: String,
    pub current_memory_request: String,
    pub current_memory_limit: String,
    pub recommended_cpu_request: String,
    pub recommended_cpu_limit: String,
    pub recommended_memory_request: String,
    pub recommended_memory_limit: String,
    pub cpu_usage_stats: UsageStats,
    pub memory_usage_stats: UsageStats,
    pub recommendation_reason: String,
}

/// The mathematical content of a recommendation: every string as a
/// character sequence.
pub struct RecommendationView {
    pub deployment: Seq<char>,
    pub container: Seq<char>,
    pub namespace: Seq<char>,
    pub current_cpu_request: Seq<char>,
    pub current_cpu_limit: Seq<char>,
    pub current_memory_request: Seq<char>,
    pub current_memory_limit: Seq<char>,
    pub recommended_cpu_request: Seq<char>,
    pub recommended_cpu_limit: Seq<char>,
    pub recommended_memory_request: Seq<char>,
    pub recommended_memory_limit: Seq<char>,
    pub cpu_usage_stats: UsageStats,
    pub memory_usage_stats: UsageStats,
    pub recommendation_reason: Seq<char>,
}

impl View for ResourceRecommendation {
    type V = RecommendationView;

    open spec fn view(&self) -> RecommendationView {
        RecommendationView {
            deployment: self.deployment@,
            container: self.container@,
            namespace: self.namespace@,
            current_cpu_request: self.current_cpu_request@,
            current_cpu_limit: self.current_cpu_limit@,
            current_memory_request: self.current_memory_request@,
            current_memory_limit: self.current_memory_limit@,
            recommended_cpu_request: self.recommended_cpu_request@,
            recommended_cpu_limit: self.recommended_cpu_limit@,
            recommended_memory_request: self.recommended_memory_request@,
            recommended_memory_limit: self.recommended_memory_limit@,
            cpu_usage_stats: self.cpu_usage_stats,
            memory_usage_stats: self.memory_usage_stats,
            recommendation_reason: self.recommendation_reason@,
        }
    }
}

/// The samples observed for one container, already reduced to plain
/// integers: CPU in microcores, memory in bytes.
pub struct ContainerSamples {
    pub cpu: Vec<u64>,
    pub memory: Vec<u64>,
}

/// A declared resource field, or `"not set"` where the field is absent.
pub open spec fn current_or_not_set(o: Option<String>) -> Seq<char> {
    match o {
        Some(s) => s@,
        None => "not set"@,
    }
}

/// A base value scaled by the safety margin (thousandths, rounded down),
/// capped at the integer bound.
pub open spec fn margin_value(base: u64, margin_permille: u64) -> u64 {
    nat_min((((base * margin_permille) as nat) / 1000) as nat, u64::MAX as nat) as u64
}

/// The recommended CPU request in microcores: the configured percentile
/// over the pair `(p50, p95)`, scaled by the margin.
pub open spec fn cpu_request_value(stats: UsageStats, cfg: RecommenderConfig) -> u64 {
    margin_value(
        percentile_of_sorted(seq![stats.p50, stats.p95], cfg.cpu_request_percentile as nat),
        cfg.safety_margin_permille,
    )
}

/// The recommended CPU limit in microcores: the configured percentile over
/// the pair `(p95, p99)`, scaled by the margin.
pub open spec fn cpu_limit_value(stats: UsageStats, cfg: RecommenderConfig) -> u64 {
    margin_value(
        percentile_of_sorted(seq![stats.p95, stats.p99], cfg.cpu_limit_percentile as nat),
        cfg.safety_margin_permille,
    )
}

/// The recommended memory request in bytes.
pub open spec fn memory_request_value(stats: UsageStats, cfg: RecommenderConfig) -> u64 {
    margin_value(
        percentile_of_sorted(seq![stats.p50, stats.p95], cfg.memory_request_percentile as nat),
        cfg.safety_margin_permille,
    )
}

/// The recommended memory limit in bytes.
pub open spec fn memory_limit_value(stats: UsageStats, cfg: RecommenderConfig) -> u64 {
    margin_value(
        percentile_of_sorted(seq![stats.p95, stats.p99], cfg.memory_limit_percentile as nat),
        cfg.safety_margin_permille,
    )
}

/// The rationale: a CPU clause, then a memory clause, joined by `"; "`;
/// a fixed sentence where neither applies.
pub open spec fn reason_of(
    container: ContainerResources,
    cpu_stats: UsageStats,
    mem_stats: UsageStats,
    rec_cpu: Seq<char>,
    rec_mem: Seq<char>,
) -> Seq<char> {
    let cpu_clause: Option<Seq<char>> = if container.cpu_request is None {
        Some("No CPU request set, recommend "@ + rec_cpu + " based on p95 usage"@)
    } else if cpu_stats.p95 > 0 {
        Some(
            "CPU p95 usage: "@ + cpu_cores_3dp(cpu_stats.p95 as nat) + " cores, avg: "@
                + cpu_cores_3dp(cpu_stats.avg as nat) + " cores"@,
        )
    } else {
        None
    };
    let mem_clause: Option<Seq<char>> = if container.memory_request is None {
        Some("No memory request set, recommend "@ + rec_mem + " based on p95 usage"@)
    } else if mem_stats.p95 > 0 {
        Some(
            "Memory p95 usage: "@ + mem_mib_whole(mem_stats.p95 as nat) + "Mi, avg: "@
                + mem_mib_whole(mem_stats.avg as nat) + "Mi"@,
        )
    } else {
        None
    };
    match (cpu_clause, mem_clause) {
        (Option::None, Option::None) => "Based on observed usage patterns"@,
        (Option::Some(c), Option::None) => c,
        (Option::None, Option::Some(m)) => m,
        (Option::Some(c), Option::Some(m)) => c + "; "@ + m,
    }
}

/// The full recommendation for one container, over the views of its
/// inputs.
pub open spec fn recommendation_view_of(
    dep: DeploymentResources,
    container: ContainerResources,
    cpu: Seq<u64>,
    memory: Seq<u64>,
    cfg: RecommenderConfig,
) -> RecommendationView {
    let cpu_stats = stats_of(cpu);
    let mem_stats = stats_of(memory);
    let rec_cpu_req = cpu_quantity(cpu_request_value(cpu_stats, cfg) as nat);
    let rec_mem_req = memory_quantity(memory_request_value(mem_stats, cfg) as nat);
    RecommendationView {
        deployment: dep.name@,
        container: container.name@,
        namespace: dep.namespace@,
        current_cpu_request: current_or_not_set(container.cpu_request),
        current_cpu_limit: current_or_not_set(container.cpu_limit),
        current_memory_request: current_or_not_set(container.memory_request),
        current_memory_limit: current_or_not_set(container.memory_limit),
        recommended_cpu_request: rec_cpu_req,
        recommended_cpu_limit: cpu_quantity(cpu_limit_value(cpu_stats, cfg) as nat),
        recommended_memory_request: rec_mem_req,
        recommended_memory_limit: memory_quantity(memory_limit_value(mem_stats, cfg) as nat),
        cpu_usage_stats: cpu_stats,
        memory_usage_stats: mem_stats,
        recommendation_reason: reason_of(container, cpu_stats, mem_stats, rec_cpu_req,
            rec_mem_req),
    }
}

/// The recommendations of one deployment's first `i` containers, in
/// container order; a container without samples is skipped.
pub open spec fn deployment_recs(
    dep: DeploymentResources,
    samp: Vec<Option<ContainerSamples>>,
    cfg: RecommenderConfig,
    i: int,
) -> Seq<RecommendationView>
    decreases i,
{
    if i <= 0 {
        Seq::empty()
    } else {
        deployment_recs(dep, samp, cfg, i - 1) + match samp@[i - 1] {
            Option::Some(cs) => seq![
                recommendation_view_of(dep, dep.containers@[i - 1], cs.cpu@, cs.memory@, cfg),
            ],
            Option::None => Seq::empty(),
        }
    }
}

/// The recommendations of the first `i` deployments, in deployment order.
pub open spec fn all_recs(
    deps: Seq<DeploymentResources>,
    samples: Seq<Vec<Option<ContainerSamples>>>,
    cfg: RecommenderConfig,
    i: int,
) -> Seq<RecommendationView>
    decreases i,
{
    if i <= 0 {
        Seq::empty()
    } else {
        all_recs(deps, samples, cfg, i - 1) + deployment_recs(
            deps[i - 1],
            samples[i - 1],
            cfg,
            samples[i - 1]@.len() as int,
        )
    }
}

/// A larger safety margin never shrinks the scaled value.
pub proof fn lemma_margin_monotone(base: u64, m1: u64, m2: u64)
    requires
        m1 <= m2,
    ensures
        margin_value(base, m1) <= margin_value(base, m2),
{
    assert(base * m1 <= base * m2) by (nonlinear_arith)
        requires m1 <= m2;
    vstd::arithmetic::div_mod::lemma_div_is_ordered((base * m1) as int, (base * m2) as int,
        1000);
}

/// With the statistics and the percentile configuration held fixed, every
/// recommended value is non-decreasing in the safety margin.
pub proof fn lemma_recommendations_monotone_in_margin(
    cpu_stats: UsageStats,
    mem_stats: UsageStats,
    cfg1: RecommenderConfig,
    cfg2: RecommenderConfig,
)
    requires
        cfg1.cpu_request_percentile == cfg2.cpu_request_percentile,
        cfg1.cpu_limit_percentile == cfg2.cpu_limit_percentile,
        cfg1.memory_request_percentile == cfg2.memory_request_percentile,
        cfg1.memory_limit_percentile == cfg2.memory_limit_percentile,
        cfg1.safety_margin_permille <= cfg2.safety_margin_permille,
    ensures
        cpu_request_value(cpu_stats, cfg1) <= cpu_request_value(cpu_stats, cfg2),
        cpu_limit_value(cpu_stats, cfg1) <= cpu_limit_value(cpu_stats, cfg2),
        memory_request_value(mem_stats, cfg1) <= memory_request_value(mem_stats, cfg2),
        memory_limit_value(mem_stats, cfg1) <= memory_limit_value(mem_stats, cfg2),
{
    lemma_margin_monotone(
        percentile_of_sorted(seq![cpu_stats.p50, cpu_stats.p95],
            cfg1.cpu_request_percentile as nat),
        cfg1.safety_margin_permille,
        cfg2.safety_margin_permille,
    );
    lemma_margin_monotone(
        percentile_of_sorted(seq![cpu_stats.p95, cpu_stats.p99],
            cfg1.cpu_limit_percentile as nat),
        cfg1.safety_margin_permille,
        cfg2.safety_margin_permille,
    );
    lemma_margin_monotone(
        percentile_of_sorted(seq![mem_stats.p50, mem_stats.p95],
            cfg1.memory_request_percentile as nat),
        cfg1.safety_margin_permille,
        cfg2.safety_margin_permille,
    );
    lemma_margin_monotone(
        percentile_of_sorted(seq![mem_stats.p95, mem_stats.p99],
            cfg1.memory_limit_percentile as nat),
        cfg1.safety_margin_permille,
        cfg2.safety_margin_permille,
    );
}

fn apply_margin(base: u64, margin_permille: u64) -> (r: u64)
    ensures
        r == margin_value(base, margin_permille),
{
    proof {
        assert((base as int) * (margin_permille as int) <= u128::MAX as int) by (nonlinear_arith)
            requires base <= u64::MAX, margin_permille <= u64::MAX;
    }
    let wide: u128 = ((base as u128) * (margin_permille as u128)) / 1000;
    if wide > u64::MAX as u128 {
        u64::MAX
    } else {
        wide as u64
    }
}

fn pair_percentile(lo: u64, hi: u64, pct: u64) -> (r: u64)
    ensures
        r == percentile_of_sorted(seq![lo, hi], pct as nat),
{
    let mut v: Vec<u64> = Vec::new();
    v.push(lo);
    v.push(hi);
    proof {
        assert(v@ =~= seq![lo, hi]);
    }
    percentile(&v, pct)
}

/// The engine, configured once and then a pure function of its inputs.
pub struct Recommender {
    pub config: RecommenderConfig,
}

impl Recommender {
    pub fn new(config: RecommenderConfig) -> (r: Self)
        ensures
            r.config == config,
    {
        Self { config }
    }

    /// Recommends the CPU request quantity for the given statistics.
    pub fn recommend_cpu_request(&self, stats: &UsageStats) -> (r: String)
        ensures
            r@ == cpu_quantity(cpu_request_value(*stats, self.config) as nat),
    {
        let base = pair_percentile(stats.p50, stats.p95, self.config.cpu_request_percentile);
        format_cpu_value(apply_margin(base, self.config.safety_margin_permille))
    }

    /// Recommends the CPU limit quantity for the given statistics.
    pub fn recommend_cpu_limit(&self, stats: &UsageStats) -> (r: String)
        ensures
            r@ == cpu_quantity(cpu_limit_value(*stats, self.config) as nat),
    {
        let base = pair_percentile(stats.p95, stats.p99, self.config.cpu_limit_percentile);
        format_cpu_value(apply_margin(base, self.config.safety_margin_permille))
    }

    /// Recommends the memory request quantity for the given statistics.
    pub fn recommend_memory_request(&self, stats: &UsageStats) -> (r: String)
        ensures
            r@ == memory_quantity(memory_request_value(*stats, self.config) as nat),
    {
        let base = pair_percentile(stats.p50, stats.p95, self.config.memory_request_percentile);
        format_memory_value(apply_margin(base, self.config.safety_margin_permille))
    }

    /// Recommends the memory limit quantity for the given statistics.
    pub fn recommend_memory_limit(&self, stats: &UsageStats) -> (r: String)
        ensures
            r@ == memory_quantity(memory_limit_value(*stats, self.config) as nat),
    {
        let base = pair_percentile(stats.p95, stats.p99, self.config.memory_limit_percentile);
        format_memory_value(apply_margin(base, self.config.safety_margin_permille))
    }

    /// Builds the rationale text for one container.
    pub fn generate_reason(
        &self,
        container: &ContainerResources,
        cpu_stats: &UsageStats,
        memory_stats: &UsageStats,
        recommended_cpu: &str,
        recommended_memory: &str,
    ) -> (r: String)
        ensures
            r@ == reason_of(*container, *cpu_stats, *memory_stats, recommended_cpu@,
                recommended_memory@),
    {
        let cpu_clause: Option<String> = if container.cpu_request.is_none() {
            let mut c = String::from_str("No CPU request set, recommend ");
            c.append(recommended_cpu);
            c.append(" based on p95 usage");
            Some(c)
        } else if cpu_stats.p95 > 0 {
            let mut c = String::from_str("CPU p95 usage: ");
            let p95s = format_cpu_cores_3dp(cpu_stats.p95);
            c.append(p95s.as_str());
            c.append(" cores, avg: ");
            let avgs = format_cpu_cores_3dp(cpu_stats.avg);
            c.append(avgs.as_str());
            c.append(" cores");
            Some(c)
        } else {
            None
        };
        let mem_clause: Option<String> = if container.memory_request.is_none() {
            let mut m = String::from_str("No memory request set, recommend ");
            m.append(recommended_memory);
            m.append(" based on p95 usage");
            Some(m)
        } else if memory_stats.p95 > 0 {
            let mut m = String::from_str("Memory p95 usage: ");
            let p95s = format_mem_mib_whole(memory_stats.p95);
            m.append(p95s.as_str());
            m.append("Mi, avg: ");
            let avgs = format_mem_mib_whole(memory_stats.avg);
            m.append(avgs.as_str());
            m.append("Mi");
            Some(m)
        } else {
            None
        };
        match (cpu_clause, mem_clause) {
            (None, None) => String::from_str("Based on observed usage patterns"),
            (Some(c), None) => c,
            (None, Some(m)) => m,
            (Some(c), Some(m)) => {
                let mut out = c;
                out.append("; ");
                out.append(m.as_str());
                out
            },
        }
    }

    /// Builds the full recommendation for one container from its observed
    /// samples.
    pub fn generate_container_recommendation(
        &self,
        deployment: &DeploymentResources,
        container: &ContainerResources,
        cpu_usage: &Vec<u64>,
        memory_usage: &Vec<u64>,
    ) -> (r: ResourceRecommendation)
        ensures
            r@ == recommendation_view_of(*deployment, *container, cpu_usage@, memory_usage@,
                self.config),
    {
        let cpu_stats = calculate_stats(cpu_usage);
        let memory_stats = calculate_stats(memory_usage);
        let recommended_cpu_request = self.recommend_cpu_request(&cpu_stats);
        let recommended_cpu_limit = self.recommend_cpu_limit(&cpu_stats);
        let recommended_memory_request = self.recommend_memory_request(&memory_stats);
        let recommended_memory_limit = self.recommend_memory_limit(&memory_stats);
        let recommendation_reason = self.generate_reason(
            container,
            &cpu_stats,
            &memory_stats,
            recommended_cpu_request.as_str(),
            recommended_memory_request.as_str(),
        );
        ResourceRecommendation {
            deployment: deployment.name.clone(),
            container: container.name.clone(),
            namespace: deployment.namespace.clone(),
            current_cpu_request: clone_or_not_set(&container.cpu_request),
            current_cpu_limit: clone_or_not_set(&container.cpu_limit),
            current_memory_request: clone_or_not_set(&container.memory_request),
            current_memory_limit: clone_or_not_set(&container.memory_limit),
            recommended_cpu_request,
            recommended_cpu_limit,
            recommended_memory_request,
            recommended_memory_limit,
            cpu_usage_stats: cpu_stats,
            memory_usage_stats: memory_stats,
            recommendation_reason,
        }
    }

    /// Builds recommendations for every container that has samples, in
    /// deployment order then container order; containers whose metrics
    /// could not be collected are skipped, not failed.
    pub fn generate_recommendations(
        &self,
        deployments: &Vec<DeploymentResources>,
        samples: &Vec<Vec<Option<ContainerSamples>>>,
    ) -> (r: Vec<ResourceRecommendation>)
        requires
            samples@.len() == deployments@.len(),
            forall|i: int|
                0 <= i < deployments@.len() ==> #[trigger] samples@[i]@.len()
                    == deployments@[i].containers@.len(),
        ensures
            r@.map_values(|x: ResourceRecommendation| x@) == all_recs(
                deployments@,
                samples@,
                self.config,
                deployments@.len() as int,
            ),
    {
        let mut recommendations: Vec<ResourceRecommendation> = Vec::new();
        let mut k: usize = 0;
        proof {
            assert(recommendations@.map_values(|x: ResourceRecommendation| x@)
                =~= all_recs(deployments@, samples@, self.config, 0));
        }
        while k < deployments.len()
            invariant
                samples@.len() == deployments@.len(),
                forall|i: int|
                    0 <= i < deployments@.len() ==> #[trigger] samples@[i]@.len()
                        == deployments@[i].containers@.len(),
                k <= deployments@.len(),
                recommendations@.map_values(|x: ResourceRecommendation| x@) == all_recs(
                    deployments@,
                    samples@,
                    self.config,
                    k as int,
                ),
            decreases deployments@.len() - k,
        {
            let deployment = &deployments[k];
            let dep_samples = &samples[k];
            let mut j: usize = 0;
            while j < dep_samples.len()
                invariant
                    samples@.len() == deployments@.len(),
                    forall|i: int|
                        0 <= i < deployments@.len() ==> #[trigger] samples@[i]@.len()
                            == deployments@[i].containers@.len(),
                    k < deployments@.len(),
                    deployment == &deployments@[k as int],
                    dep_samples == &samples@[k as int],
                    j <= dep_samples@.len(),
                    recommendations@.map_values(|x: ResourceRecommendation| x@) == all_recs(
                        deployments@,
                        samples@,
                        self.config,
                        k as int,
                    ) + deployment_recs(deployments@[k as int], samples@[k as int], self.config,
                        j as int),
                decreases dep_samples@.len() - j,
            {
                let ghost pre = recommendations@.map_values(|x: ResourceRecommendation| x@);
                match &dep_samples[j] {
                    Some(cs) => {
                        let container = &deployment.containers[j];
                        let rec = self.generate_container_recommendation(
                            deployment,
                            container,
                            &cs.cpu,
                            &cs.memory,
                        );
                        recommendations.push(rec);
                        proof {
                            assert(recommendations@.map_values(|x: ResourceRecommendation| x@)
                                =~= pre.push(rec@));
                            assert(deployment_recs(deployments@[k as int], samples@[k as int],
                                self.config, j + 1) =~= deployment_recs(deployments@[k as int],
                                samples@[k as int], self.config, j as int) + seq![rec@]);
                            assert(recommendations@.map_values(|x: ResourceRecommendation| x@)
                                =~= all_recs(deployments@, samples@, self.config, k as int)
                                + deployment_recs(deployments@[k as int], samples@[k as int],
                                    self.config, j + 1));
                        }
                    },
                    None => {
                        proof {
                            assert(deployment_recs(deployments@[k as int], samples@[k as int],
                                self.config, j + 1) =~= deployment_recs(deployments@[k as int],
                                samples@[k as int], self.config, j as int));
                        }
                    },
                }
                j += 1;
            }
            proof {
                assert(all_recs(deployments@, samples@, self.config, k + 1) =~= all_recs(
                    deployments@, samples@, self.config, k as int) + deployment_recs(
                    deployments@[k as int], samples@[k as int], self.config,
                    samples@[k as int]@.len() as int));
            }
            k += 1;
        }
        recommendations
    }
}

fn clone_or_not_set(o: &Option<String>) -> (r: String)
    ensures
        r@ == current_or_not_set(*o),
{
    match o {
        Some(s) => s.clone(),
        None => String::from_str("not set"),
    }
}

/// Builds the PromQL query for a container's CPU usage rate.
pub fn cpu_usage_query(namespace: &str, deployment: &str, container: &str) -> (r: String)
    ensures
        r@ == "rate(container_cpu_usage_seconds_total{namespace=\""@ + namespace@ + "\",pod=~\""@
            + deployment@ + ".*\",container=\""@ + container@ + "\"}[5m])"@,
{
    let mut q = String::from_str("rate(container_cpu_usage_seconds_total{namespace=\"");
    q.append(namespace);
    q.append("\",pod=~\"");
    q.append(deployment);
    q.append(".*\",container=\"");
    q.append(container);
    q.append("\"}[5m])");
    q
}

/// Builds the PromQL query for a container's memory working set.
pub fn memory_usage_query(namespace: &str, deployment: &str, container: &str) -> (r: String)
    ensures
        r@ == "container_memory_working_set_bytes{namespace=\""@ + namespace@ + "\",pod=~\""@
            + deployment@ + ".*\",container=\""@ + container@ + "\"}"@,
{
    let mut q = String::from_str("container_memory_working_set_bytes{namespace=\"");
    q.append(namespace);
    q.append("\",pod=~\"");
    q.append(deployment);
    q.append(".*\",container=\"");
    q.append(container);
    q.append("\"}");
    q
}

} // verus!
