use recommender::aws_region::AwsRegion;
use recommender::cli::OutputFormat;
use recommender::{GitConnectionType, GitProvider, KubernetesConfig, RecommenderError, UpdaterConfig};

#[test]
fn provider_detection_by_host_substring() {
    assert_eq!(GitProvider::from_url("https://github.com/a/b"), GitProvider::GitHub);
    assert_eq!(GitProvider::from_url("https://gitlab.com/a/b"), GitProvider::GitLab);
    assert_eq!(GitProvider::from_url("https://gitlab.mycorp.io/a/b"), GitProvider::GitLab);
    assert_eq!(GitProvider::from_url("https://bitbucket.org/a/b"), GitProvider::Bitbucket);
    assert_eq!(GitProvider::from_url("https://gitea.example.net/a/b"), GitProvider::Gitea);
    assert_eq!(GitProvider::from_url("https://code.example.com/a/b"), GitProvider::Generic);
}

#[test]
fn api_base_urls_by_provider_and_host() {
    assert_eq!(
        GitProvider::GitHub.api_base_url("github.com").as_deref(),
        Some("https://api.github.com")
    );
    assert_eq!(
        GitProvider::GitHub.api_base_url("github.mycorp.io").as_deref(),
        Some("https://github.mycorp.io/api/v3")
    );
    assert_eq!(
        GitProvider::GitLab.api_base_url("gitlab.com").as_deref(),
        Some("https://gitlab.com/api/v4")
    );
    assert_eq!(
        GitProvider::GitLab.api_base_url("gitlab.mycorp.io").as_deref(),
        Some("https://gitlab.mycorp.io/api/v4")
    );
    assert_eq!(
        GitProvider::Bitbucket.api_base_url("bitbucket.org").as_deref(),
        Some("https://api.bitbucket.org/2.0")
    );
    assert_eq!(
        GitProvider::Gitea.api_base_url("gitea.example.net").as_deref(),
        Some("https://gitea.example.net/api/v1")
    );
    assert!(GitProvider::Generic.api_base_url("code.example.com").is_none());
}

#[test]
fn updater_config_classifies_the_scheme() {
    let ssh = UpdaterConfig::new("ssh://git@github.com/a/b".to_string(), None, None).unwrap();
    assert_eq!(ssh.connection_type, GitConnectionType::Ssh);
    let https = UpdaterConfig::new("https://github.com/a/b".to_string(), None, None).unwrap();
    assert_eq!(https.connection_type, GitConnectionType::Https);
    assert_eq!(https.provider, GitProvider::GitHub);
}

#[test]
fn updater_config_rejects_other_schemes() {
    let err = UpdaterConfig::new("ftp://host/a/b".to_string(), None, None).unwrap_err();
    let message = err.message();
    assert_eq!(
        message,
        "Configuration error: Invalid value: Unsupported git URL scheme: ftp"
    );
    match err {
        RecommenderError::Config(_) => {}
        other => panic!("unexpected error: {:?}", other),
    }
}

#[test]
fn kubernetes_config_keeps_its_fields() {
    let config = KubernetesConfig::new(
        "https://aps-workspaces.us-east-1.amazonaws.com/workspaces/ws-1".to_string(),
        "us-east-1".to_string(),
        Some("staging-cluster".to_string()),
        None,
    );
    assert_eq!(config.region, "us-east-1");
    assert_eq!(config.context.as_deref(), Some("staging-cluster"));
    assert!(config.namespace.is_none());
}

#[test]
fn region_names_round_trip() {
    assert_eq!(AwsRegion::UsEast1.as_str(), "us-east-1");
    assert_eq!(AwsRegion::ApSoutheast7.as_str(), "ap-southeast-7");
    assert_eq!(AwsRegion::from_str("eu-central-2").unwrap(), AwsRegion::EuCentral2);
    assert_eq!(AwsRegion::from_str("us-gov-west-1").unwrap(), AwsRegion::UsGovWest1);
    let err = AwsRegion::from_str("mars-north-1").unwrap_err();
    assert_eq!(
        err,
        "Invalid AWS region: 'mars-north-1'. See https://docs.aws.amazon.com/general/latest/gr/rande.html for valid regions"
    );
}

#[test]
fn output_format_names() {
    assert_eq!(OutputFormat::from_name("table"), Some(OutputFormat::Table));
    assert_eq!(OutputFormat::from_name("json"), Some(OutputFormat::Json));
    assert_eq!(OutputFormat::from_name("yaml"), None);
}
