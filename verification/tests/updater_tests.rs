use recommender::updater::{
    branch_name_for, build_pull_request, generate_commit_message, handle_api_response,
    handle_bitbucket_response, parse_repo_owner_name, prepare_pr_description, pr_title,
    refspec_for, ApplyWorkflow, WorkflowPhase,
};
use recommender::{GitProvider, RecommenderError, UpdaterConfig};

fn updater_config(url: &str, token: Option<&str>) -> UpdaterConfig {
    UpdaterConfig::new(url.to_string(), token.map(|t| t.to_string()), None)
        .expect("configuration should build")
}

#[test]
fn owner_and_repo_come_from_https_urls() {
    let (owner, repo) = parse_repo_owner_name("https://github.com/acme/shop.git").unwrap();
    assert_eq!(owner, "acme");
    assert_eq!(repo, "shop");
    let (owner, repo) = parse_repo_owner_name("http://git.example.com/team/infra").unwrap();
    assert_eq!(owner, "team");
    assert_eq!(repo, "infra");
}

#[test]
fn owner_and_repo_come_from_ssh_urls() {
    let (owner, repo) = parse_repo_owner_name("git@github.com:acme/shop.git").unwrap();
    assert_eq!(owner, "acme");
    assert_eq!(repo, "shop");
    // The ssh scheme splits after the host, like the http forms.
    let (owner, repo) = parse_repo_owner_name("ssh://git@github.com/acme/shop.git").unwrap();
    assert_eq!(owner, "acme");
    assert_eq!(repo, "shop");
}

#[test]
fn unparsable_url_names_itself_in_the_error() {
    let err = parse_repo_owner_name("ftp://nowhere").unwrap_err();
    match err {
        RecommenderError::ApplyError(m) => {
            assert_eq!(m, "Could not parse owner/repo from URL: ftp://nowhere")
        }
        other => panic!("unexpected error: {:?}", other),
    }
}

#[test]
fn commit_message_lists_deployments() {
    let updates = vec![("prod/checkout".to_string(), 1usize), ("prod/cart".to_string(), 2)];
    let message = generate_commit_message(&updates);
    assert_eq!(
        message,
        "chore: apply resource recommendations\n\n\
         Updated resource requests and limits for 2 deployment(s):\n\
         \x20 - prod/checkout\n\
         \x20 - prod/cart\n\
         \nGenerated by Kubernetes Resource Recommender"
    );
}

#[test]
fn pr_description_lists_deployments() {
    let updates = vec![("prod/checkout".to_string(), 1usize)];
    let description = prepare_pr_description(&updates);
    assert!(description.starts_with("## Automated Resource Recommendations"));
    assert!(description.contains("Updated 1 deployment(s):\n- `prod/checkout`"));
    assert!(description.ends_with("*Generated automatically by Kubernetes Resource Recommender*"));
}

#[test]
fn branch_title_and_refspec_formats() {
    assert_eq!(branch_name_for("20260101-120000"), "autorightsizing-20260101-120000");
    assert_eq!(
        refspec_for("autorightsizing-x"),
        "refs/heads/autorightsizing-x:refs/heads/autorightsizing-x"
    );
    assert_eq!(pr_title("2026-01-01"), "chore: apply resource recommendations (2026-01-01)");
}

#[test]
fn api_error_carries_status_and_body() {
    let err = handle_api_response(403, "denied", "html_url").unwrap_err();
    match err {
        RecommenderError::ApplyError(m) => assert_eq!(m, "API error (403): denied"),
        other => panic!("unexpected error: {:?}", other),
    }
}

#[test]
fn api_success_extracts_the_url_field() {
    let url =
        handle_api_response(201, "{\"html_url\":\"https://github.com/acme/shop/pull/7\"}", "html_url")
            .unwrap();
    assert_eq!(url, "https://github.com/acme/shop/pull/7");
}

#[test]
fn api_success_without_the_field_is_an_error() {
    let err = handle_api_response(200, "{\"number\":7}", "html_url").unwrap_err();
    match err {
        RecommenderError::ApplyError(m) => assert_eq!(m, "No URL in API response"),
        other => panic!("unexpected error: {:?}", other),
    }
}

#[test]
fn api_garbage_body_is_a_parse_error() {
    let err = handle_api_response(200, "not json", "html_url").unwrap_err();
    match err {
        RecommenderError::ApplyError(m) => {
            assert!(m.starts_with("Failed to parse API response: "))
        }
        other => panic!("unexpected error: {:?}", other),
    }
}

#[test]
fn bitbucket_url_sits_under_nested_links() {
    let body = "{\"links\":{\"html\":{\"href\":\"https://bitbucket.org/acme/shop/pull-requests/3\"}}}";
    assert_eq!(
        handle_bitbucket_response(body).unwrap(),
        "https://bitbucket.org/acme/shop/pull-requests/3"
    );
    let err = handle_bitbucket_response("{}").unwrap_err();
    match err {
        RecommenderError::ApplyError(m) => assert_eq!(m, "No PR URL in response"),
        other => panic!("unexpected error: {:?}", other),
    }
}

#[test]
fn github_pull_request_call() {
    let config = updater_config("https://github.com/acme/shop.git", Some("SECRET-REDACTED"));
    let updates = vec![("prod/checkout".to_string(), 1usize)];
    let req = build_pull_request(&config, "autorightsizing-1", "main", &updates, "2026-01-01")
        .expect("request should build");
    assert_eq!(req.url, "https://api.github.com/repos/acme/shop/pulls");
    assert_eq!(req.header_name, "Authorization");
    assert_eq!(req.header_value, "token SECRET-REDACTED");
    assert_eq!(req.accept.as_deref(), Some("application/vnd.github.v3+json"));
    assert_eq!(req.user_agent, "kubernetes-recommender");
    assert!(req.body.starts_with("{\"base\":\"main\""));
    assert!(req.body.contains("\"head\":\"autorightsizing-1\""));
    assert!(req.body.contains("\"title\":\"chore: apply resource recommendations (2026-01-01)\""));
    // The body is what the provider will parse back.
    let parsed: serde_json::Value = serde_json::from_str(&req.body).expect("body is JSON");
    assert_eq!(parsed["base"].as_str(), Some("main"));
    assert_eq!(parsed["head"].as_str(), Some("autorightsizing-1"));
}

#[test]
fn gitlab_merge_request_encodes_the_project_path() {
    let config = updater_config("https://gitlab.com/acme/shop.git", Some("SECRET-REDACTED"));
    let updates = vec![("prod/checkout".to_string(), 1usize)];
    let req = build_pull_request(&config, "autorightsizing-1", "main", &updates, "2026-01-01")
        .expect("request should build");
    assert_eq!(req.url, "https://gitlab.com/api/v4/projects/acme%2Fshop/merge_requests");
    assert_eq!(req.header_name, "PRIVATE-TOKEN");
    assert_eq!(req.header_value, "SECRET-REDACTED");
    let parsed: serde_json::Value = serde_json::from_str(&req.body).expect("body is JSON");
    assert_eq!(parsed["source_branch"].as_str(), Some("autorightsizing-1"));
    assert_eq!(parsed["target_branch"].as_str(), Some("main"));
}

#[test]
fn generic_provider_has_no_automatic_pull_request() {
    let config = updater_config("https://code.example.com/acme/shop.git", None);
    assert_eq!(config.provider, GitProvider::Generic);
    let err = build_pull_request(&config, "b", "main", &Vec::new(), "2026-01-01").unwrap_err();
    match err {
        RecommenderError::ApplyError(m) => assert_eq!(
            m,
            "Automatic PR creation not supported for this Git provider. Please create PR manually."
        ),
        other => panic!("unexpected error: {:?}", other),
    }
}

#[test]
fn missing_token_is_refused_before_sending() {
    let config = updater_config("https://github.com/acme/shop.git", None);
    let err = build_pull_request(&config, "b", "main", &Vec::new(), "2026-01-01").unwrap_err();
    match err {
        RecommenderError::ApplyError(m) => {
            assert_eq!(m, "Authentication token required for creating pull requests")
        }
        other => panic!("unexpected error: {:?}", other),
    }
}

#[test]
fn workflow_orders_the_phases_and_reports_the_outcome() {
    let config = updater_config("https://github.com/acme/shop.git", Some("SECRET-REDACTED"));
    let mut flow = ApplyWorkflow::new(config, "main".to_string());
    assert_eq!(flow.phase, WorkflowPhase::Created);
    let branch = flow.on_cloned("20260101-120000");
    assert_eq!(branch, "autorightsizing-20260101-120000");
    flow.on_branched();
    flow.record_update("prod", "checkout", 1);
    flow.record_update("prod", "cart", 0); // a miss records nothing
    let message = flow.on_applied().expect("updates exist");
    assert!(message.contains("prod/checkout"));
    assert!(!message.contains("prod/cart"));
    flow.on_committed("abc123".to_string());
    assert_eq!(
        flow.push_refspec(),
        "refs/heads/autorightsizing-20260101-120000:refs/heads/autorightsizing-20260101-120000"
    );
    flow.on_pushed();
    let request = flow.pull_request("2026-01-01").expect("request should build");
    assert!(request.url.contains("/repos/acme/shop/pulls"));
    let outcome = flow
        .finish(Some("https://github.com/acme/shop/pull/7".to_string()))
        .expect("outcome");
    assert_eq!(outcome.branch, "autorightsizing-20260101-120000");
    assert_eq!(outcome.commit_sha, "abc123");
    assert_eq!(outcome.pr_url.as_deref(), Some("https://github.com/acme/shop/pull/7"));
}

#[test]
fn workflow_without_matches_fails_before_any_commit() {
    let config = updater_config("https://github.com/acme/shop.git", Some("SECRET-REDACTED"));
    let mut flow = ApplyWorkflow::new(config, "main".to_string());
    flow.on_cloned("20260101-120000");
    flow.on_branched();
    flow.record_update("prod", "checkout", 0);
    let err = flow.on_applied().unwrap_err();
    match err {
        RecommenderError::ApplyError(m) => {
            assert_eq!(m, "No matching deployments found in repository")
        }
        other => panic!("unexpected error: {:?}", other),
    }
    assert_eq!(flow.phase, WorkflowPhase::Failed);
}

#[test]
fn duplicate_update_keys_keep_the_latest_count() {
    let config = updater_config("https://github.com/acme/shop.git", Some("SECRET-REDACTED"));
    let mut flow = ApplyWorkflow::new(config, "main".to_string());
    flow.on_cloned("t");
    flow.on_branched();
    flow.record_update("prod", "checkout", 1);
    flow.record_update("prod", "checkout", 3);
    let message = flow.on_applied().expect("updates exist");
    assert!(message.contains("Updated resource requests and limits for 1 deployment(s):"));
}
