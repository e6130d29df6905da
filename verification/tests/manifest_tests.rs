use recommender::manifest::patch_yaml_text;
use recommender::recommender::ResourceRecommendation;
use recommender::UsageStats;

fn zero_stats() -> UsageStats {
    UsageStats { min: 0, max: 0, avg: 0, p50: 0, p95: 0, p99: 0 }
}

fn recommendation_for(deployment: &str, namespace: &str, container: &str) -> ResourceRecommendation {
    ResourceRecommendation {
        deployment: deployment.to_string(),
        container: container.to_string(),
        namespace: namespace.to_string(),
        current_cpu_request: "not set".to_string(),
        current_cpu_limit: "not set".to_string(),
        current_memory_request: "not set".to_string(),
        current_memory_limit: "not set".to_string(),
        recommended_cpu_request: "180m".to_string(),
        recommended_cpu_limit: "360m".to_string(),
        recommended_memory_request: "128Mi".to_string(),
        recommended_memory_limit: "256Mi".to_string(),
        cpu_usage_stats: zero_stats(),
        memory_usage_stats: zero_stats(),
        recommendation_reason: String::new(),
    }
}

const MANIFEST: &str = r#"apiVersion: apps/v1
kind: Deployment
metadata:
  name: checkout
  namespace: prod
spec:
  replicas: 3
  template:
    spec:
      containers:
      - name: app
        image: checkout:v1
      - name: sidecar
        image: sidecar:v2
---
kind: Service
metadata:
  name: checkout
"#;

#[test]
fn patch_sets_requests_and_limits_on_the_matching_container() {
    let rec = recommendation_for("checkout", "prod", "app");
    let (text, count) = patch_yaml_text(MANIFEST, &rec).expect("patch should succeed");
    assert_eq!(count, 1);

    let docs: Vec<serde_yaml::Value> = serde_yaml::Deserializer::from_str(&text)
        .map(|d| <serde_yaml::Value as serde::Deserialize>::deserialize(d).expect("doc parses"))
        .collect();
    assert_eq!(docs.len(), 2);
    let containers = &docs[0]["spec"]["template"]["spec"]["containers"];
    let app = &containers[0];
    assert_eq!(app["name"].as_str(), Some("app"));
    assert_eq!(app["resources"]["requests"]["cpu"].as_str(), Some("180m"));
    assert_eq!(app["resources"]["requests"]["memory"].as_str(), Some("128Mi"));
    assert_eq!(app["resources"]["limits"]["cpu"].as_str(), Some("360m"));
    assert_eq!(app["resources"]["limits"]["memory"].as_str(), Some("256Mi"));
    // The sibling container and the unrelated document are untouched.
    assert!(containers[1].get("resources").is_none());
    assert_eq!(docs[0]["spec"]["replicas"].as_u64(), Some(3));
    assert_eq!(docs[1]["kind"].as_str(), Some("Service"));
}

#[test]
fn patch_is_idempotent_on_the_rewritten_text() {
    let rec = recommendation_for("checkout", "prod", "app");
    let (once, count1) = patch_yaml_text(MANIFEST, &rec).expect("first patch");
    assert_eq!(count1, 1);
    let (twice, count2) = patch_yaml_text(&once, &rec).expect("second patch");
    assert_eq!(count2, 1);
    assert_eq!(once, twice);
}

#[test]
fn unmatched_deployment_changes_nothing() {
    let rec = recommendation_for("payments", "prod", "app");
    let (text, count) = patch_yaml_text(MANIFEST, &rec).expect("patch should succeed");
    assert_eq!(count, 0);
    assert_eq!(text, MANIFEST);
}

#[test]
fn namespace_mismatch_changes_nothing() {
    let rec = recommendation_for("checkout", "staging", "app");
    let (_, count) = patch_yaml_text(MANIFEST, &rec).expect("patch should succeed");
    assert_eq!(count, 0);
}

#[test]
fn document_without_namespace_still_matches() {
    let manifest = r#"kind: Deployment
metadata:
  name: checkout
spec:
  template:
    spec:
      containers:
      - name: app
"#;
    let rec = recommendation_for("checkout", "prod", "app");
    let (_, count) = patch_yaml_text(manifest, &rec).expect("patch should succeed");
    assert_eq!(count, 1);
}

#[test]
fn count_is_per_matching_container() {
    // Two containers under the same name in one document: both are
    // rewritten and both are counted.
    let manifest = r#"kind: Deployment
metadata:
  name: checkout
  namespace: prod
spec:
  template:
    spec:
      containers:
      - name: app
      - name: app
"#;
    let rec = recommendation_for("checkout", "prod", "app");
    let (text, count) = patch_yaml_text(manifest, &rec).expect("patch should succeed");
    assert_eq!(count, 2);
    let doc: serde_yaml::Value = serde_yaml::from_str(&text).expect("output parses");
    let containers = doc["spec"]["template"]["spec"]["containers"].as_sequence().unwrap();
    for c in containers {
        assert_eq!(c["resources"]["requests"]["cpu"].as_str(), Some("180m"));
    }
}

#[test]
fn malformed_yaml_is_rejected() {
    let rec = recommendation_for("checkout", "prod", "app");
    assert!(patch_yaml_text("kind: [unterminated", &rec).is_none());
}

#[test]
fn existing_resource_values_are_overwritten() {
    let manifest = r#"kind: Deployment
metadata:
  name: checkout
  namespace: prod
spec:
  template:
    spec:
      containers:
      - name: app
        resources:
          requests:
            cpu: 999m
            memory: 1Gi
"#;
    let rec = recommendation_for("checkout", "prod", "app");
    let (text, count) = patch_yaml_text(manifest, &rec).expect("patch should succeed");
    assert_eq!(count, 1);
    let doc: serde_yaml::Value = serde_yaml::from_str(&text).expect("output parses");
    let res = &doc["spec"]["template"]["spec"]["containers"][0]["resources"];
    assert_eq!(res["requests"]["cpu"].as_str(), Some("180m"));
    assert_eq!(res["requests"]["memory"].as_str(), Some("128Mi"));
    assert_eq!(res["limits"]["cpu"].as_str(), Some("360m"));
}
