use recommender::kubernetes::{ContainerResources, DeploymentResources};
use recommender::recommender::ContainerSamples;
use recommender::Recommender;
use recommender::RecommenderConfig;
use recommender::UsageStats;

fn config_with_margin(margin_permille: u64) -> RecommenderConfig {
    RecommenderConfig::new(168, 95, 99, 95, 99, margin_permille)
}

#[test]
fn scenario_cpu_request_and_limit_from_pair_percentiles() {
    // Deployment `checkout` in `prod`, container `app`, no CPU request,
    // p95 = 0.150 cores, p99 = 0.300 cores, margin 1.2: the request is
    // the 95th percentile over (p50, p95) scaled by 1.2 -> 180m, the
    // limit the 99th over (p95, p99) -> 360m.
    let engine = Recommender::new(config_with_margin(1200));
    let stats = UsageStats {
        min: 10_000,
        max: 300_000,
        avg: 80_000,
        p50: 100_000,
        p95: 150_000,
        p99: 300_000,
    };
    assert_eq!(engine.recommend_cpu_request(&stats), "180m");
    assert_eq!(engine.recommend_cpu_limit(&stats), "360m");
}

#[test]
fn scenario_empty_samples_floor_values_and_explain() {
    let engine = Recommender::new(config_with_margin(1200));
    let deployment = DeploymentResources {
        name: "checkout".to_string(),
        namespace: "prod".to_string(),
        containers: Vec::new(),
    };
    let container = ContainerResources {
        name: "app".to_string(),
        cpu_request: None,
        cpu_limit: None,
        memory_request: None,
        memory_limit: None,
    };
    let rec = engine.generate_container_recommendation(
        &deployment,
        &container,
        &Vec::new(),
        &Vec::new(),
    );
    assert_eq!(rec.cpu_usage_stats, UsageStats { min: 0, max: 0, avg: 0, p50: 0, p95: 0, p99: 0 });
    assert_eq!(rec.recommended_cpu_request, "1m");
    assert_eq!(rec.recommended_memory_request, "1Mi");
    assert_eq!(rec.current_cpu_request, "not set");
    let reason = &rec.recommendation_reason;
    assert_eq!(reason.matches("No CPU request set").count(), 1);
    assert_eq!(reason.matches("No memory request set").count(), 1);
    assert_eq!(
        reason,
        "No CPU request set, recommend 1m based on p95 usage; No memory request set, recommend 1Mi based on p95 usage"
    );
}

#[test]
fn reason_reports_observed_usage_when_requests_are_set() {
    let engine = Recommender::new(config_with_margin(1200));
    let container = ContainerResources {
        name: "app".to_string(),
        cpu_request: Some("100m".to_string()),
        cpu_limit: None,
        memory_request: Some("64Mi".to_string()),
        memory_limit: None,
    };
    let cpu_stats = UsageStats {
        min: 0,
        max: 200_000,
        avg: 80_000,
        p50: 100_000,
        p95: 150_000,
        p99: 200_000,
    };
    let mem_stats = UsageStats {
        min: 0,
        max: 200_000_000,
        avg: 100_000_000,
        p50: 120_000_000,
        p95: 134_217_728,
        p99: 200_000_000,
    };
    let reason = engine.generate_reason(&container, &cpu_stats, &mem_stats, "180m", "154Mi");
    assert_eq!(
        reason,
        "CPU p95 usage: 0.150 cores, avg: 0.080 cores; Memory p95 usage: 128Mi, avg: 95Mi"
    );
}

#[test]
fn recommended_values_do_not_decrease_with_a_larger_margin() {
    let small = Recommender::new(config_with_margin(1000));
    let large = Recommender::new(config_with_margin(1700));
    let stats = UsageStats {
        min: 10_000,
        max: 400_000,
        avg: 90_000,
        p50: 100_000,
        p95: 150_000,
        p99: 300_000,
    };
    let parse = recommender::quantity::parse_resource_value;
    assert!(parse(&small.recommend_cpu_request(&stats)) <= parse(&large.recommend_cpu_request(&stats)));
    assert!(parse(&small.recommend_cpu_limit(&stats)) <= parse(&large.recommend_cpu_limit(&stats)));
    assert!(parse(&small.recommend_memory_request(&stats)) <= parse(&large.recommend_memory_request(&stats)));
    assert!(parse(&small.recommend_memory_limit(&stats)) <= parse(&large.recommend_memory_limit(&stats)));
}

#[test]
fn generate_recommendations_skips_containers_without_samples() {
    let engine = Recommender::new(config_with_margin(1200));
    let deployments = vec![DeploymentResources {
        name: "checkout".to_string(),
        namespace: "prod".to_string(),
        containers: vec![
            ContainerResources {
                name: "app".to_string(),
                cpu_request: None,
                cpu_limit: None,
                memory_request: None,
                memory_limit: None,
            },
            ContainerResources {
                name: "sidecar".to_string(),
                cpu_request: None,
                cpu_limit: None,
                memory_request: None,
                memory_limit: None,
            },
        ],
    }];
    let samples = vec![vec![
        Some(ContainerSamples { cpu: vec![150_000], memory: vec![5_000_000] }),
        None,
    ]];
    let recs = engine.generate_recommendations(&deployments, &samples);
    assert_eq!(recs.len(), 1);
    assert_eq!(recs[0].deployment, "checkout");
    assert_eq!(recs[0].namespace, "prod");
    assert_eq!(recs[0].container, "app");
    assert_eq!(recs[0].recommended_cpu_request, "180m");
}

#[test]
fn prometheus_queries_name_the_target() {
    let q = recommender::recommender::cpu_usage_query("prod", "checkout", "app");
    assert_eq!(
        q,
        "rate(container_cpu_usage_seconds_total{namespace=\"prod\",pod=~\"checkout.*\",container=\"app\"}[5m])"
    );
    let m = recommender::recommender::memory_usage_query("prod", "checkout", "app");
    assert_eq!(
        m,
        "container_memory_working_set_bytes{namespace=\"prod\",pod=~\"checkout.*\",container=\"app\"}"
    );
}
