//! Configuration types for the recommender and the manifest updater.
//!
//! Resource quantities are held as plain integers throughout the library:
//! CPU in microcores (one core is 1_000_000), memory in bytes, percentiles
//! as whole percent, and the safety margin in thousandths (1200 stands for
//! a 1.2x buffer).

use vstd::prelude::*;
use crate::error::{ConfigError, RecommenderError};
use crate::strutil::{contains_seq, starts_with_seq, str_contains, str_starts_with};

verus! {

/// Connection settings for the cluster and its metrics endpoint.
#[derive(Clone, Debug)]
pub struct KubernetesConfig {
    pub amp_url: String,
    pub region: String,
    pub context: Option<String>,
    pub namespace: Option<String>,
}

impl KubernetesConfig {
    pub fn new(
        amp_url: String,
        region: String,
        context: Option<String>,
        namespace: Option<String>,
    ) -> (r: Self)
        ensures
            r.amp_url == amp_url,
            r.region == region,
            r.context == context,
            r.namespace == namespace,
    {
        Self { amp_url, region, context, namespace }
    }
}

/// Policy knobs of the recommendation engine.
///
/// Percentiles are whole percent in `0..=100`; `safety_margin_permille`
/// is a multiplier in thousandths and must be positive.
#[derive(Clone, Copy, Debug)]
pub struct RecommenderConfig {
    pub lookback_hours: u64,
    pub cpu_request_percentile: u64,
    pub cpu_limit_percentile: u64,
    pub memory_request_percentile: u64,
    pub memory_limit_percentile: u64,
    pub safety_margin_permille: u64,
}

impl RecommenderConfig {
    /// A configuration is well formed when every percentile lies in
    /// `0..=100` and the safety margin is positive.
    pub open spec fn wf(self) -> bool {
        &&& self.cpu_request_percentile <= 100
        &&& self.cpu_limit_percentile <= 100
        &&& self.memory_request_percentile <= 100
        &&& self.memory_limit_percentile <= 100
        &&& self.safety_margin_permille >= 1
    }

    pub fn new(
        lookback_hours: u64,
        cpu_request_percentile: u64,
        cpu_limit_percentile: u64,
        memory_request_percentile: u64,
        memory_limit_percentile: u64,
        safety_margin_permille: u64,
    ) -> (r: Self)
        ensures
            r == (RecommenderConfig {
                lookback_hours,
                cpu_request_percentile,
                cpu_limit_percentile,
                memory_request_percentile,
                memory_limit_percentile,
                safety_margin_permille,
            }),
    {
        Self {
            lookback_hours,
            cpu_request_percentile,
            cpu_limit_percentile,
            memory_request_percentile,
            memory_limit_percentile,
            safety_margin_permille,
        }
    }
}

/// How the git remote is reached, decided by the URL scheme.
#[derive(Clone, Copy, Debug, PartialEq, Eq, Structural)]
pub enum GitConnectionType {
    Ssh,
    Https,
}

/// The hosting provider of a repository, detected from its URL.
#[derive(Clone, Copy, Debug, PartialEq, Eq, Structural)]
pub enum GitProvider {
    GitHub,
    GitLab,
    Bitbucket,
    Gitea,
    Generic,
}

/// The provider a repository URL points at, by host substrings; anything
/// unrecognized is `Generic`.
pub open spec fn provider_of(url: Seq<char>) -> GitProvider {
    if contains_seq(url, "github.com"@) {
        GitProvider::GitHub
    } else if contains_seq(url, "gitlab.com"@) || contains_seq(url, "gitlab"@) {
        GitProvider::GitLab
    } else if contains_seq(url, "bitbucket.org"@) {
        GitProvider::Bitbucket
    } else if contains_seq(url, "gitea"@) {
        GitProvider::Gitea
    } else {
        GitProvider::Generic
    }
}

/// The REST base URL for a provider, given the repository host: the
/// public endpoint for the well-known hosts, the self-hosted variant
/// otherwise, and nothing for `Generic`.
pub open spec fn api_base_of(p: GitProvider, host: Seq<char>) -> Option<Seq<char>> {
    match p {
        GitProvider::GitHub => if contains_seq(host, "github.com"@) {
            Some("https://api.github.com"@)
        } else {
            Some("https://"@ + host + "/api/v3"@)
        },
        GitProvider::GitLab => if contains_seq(host, "gitlab.com"@) {
            Some("https://gitlab.com/api/v4"@)
        } else {
            Some("https://"@ + host + "/api/v4"@)
        },
        GitProvider::Bitbucket => Some("https://api.bitbucket.org/2.0"@),
        GitProvider::Gitea => Some("https://"@ + host + "/api/v1"@),
        GitProvider::Generic => None,
    }
}

impl GitProvider {
    /// Detects the provider from the repository URL.
    pub fn from_url(url: &str) -> (r: Self)
        ensures
            r == provider_of(url@),
    {
        if str_contains(url, "github.com") {
            GitProvider::GitHub
        } else if str_contains(url, "gitlab.com") || str_contains(url, "gitlab") {
            GitProvider::GitLab
        } else if str_contains(url, "bitbucket.org") {
            GitProvider::Bitbucket
        } else if str_contains(url, "gitea") {
            GitProvider::Gitea
        } else {
            GitProvider::Generic
        }
    }

    /// The REST base URL for this provider, given the repository host.
    pub fn api_base_url(&self, host: &str) -> (r: Option<String>)
        ensures
            match api_base_of(*self, host@) {
                Some(u) => r matches Some(s) && s@ == u,
                None => r is None,
            },
    {
        match self {
            GitProvider::GitHub => {
                if str_contains(host, "github.com") {
                    Some(String::from_str("https://api.github.com"))
                } else {
                    let mut u = String::from_str("https://");
                    u.append(host);
                    u.append("/api/v3");
                    Some(u)
                }
            },
            GitProvider::GitLab => {
                if str_contains(host, "gitlab.com") {
                    Some(String::from_str("https://gitlab.com/api/v4"))
                } else {
                    let mut u = String::from_str("https://");
                    u.append(host);
                    u.append("/api/v4");
                    Some(u)
                }
            },
            GitProvider::Bitbucket => Some(String::from_str("https://api.bitbucket.org/2.0")),
            GitProvider::Gitea => {
                let mut u = String::from_str("https://");
                u.append(host);
                u.append("/api/v1");
                Some(u)
            },
            GitProvider::Generic => None,
        }
    }
}

/// How the remote will be reached, read off the URL's scheme prefix.
pub open spec fn connection_type_of(url: Seq<char>) -> Option<GitConnectionType> {
    if starts_with_seq(url, "ssh://"@) {
        Some(GitConnectionType::Ssh)
    } else if starts_with_seq(url, "https://"@) || starts_with_seq(url, "http://"@) {
        Some(GitConnectionType::Https)
    } else {
        None
    }
}

/// The characters before the first `':'`, or the whole string when there
/// is none: the scheme part quoted in the rejection message.
pub open spec fn scheme_prefix(url: Seq<char>) -> Seq<char>
    decreases url.len(),
{
    if url.len() == 0 {
        Seq::empty()
    } else if url[0] == ':' {
        Seq::empty()
    } else {
        seq![url[0]] + scheme_prefix(url.drop_first())
    }
}

fn scheme_prefix_exec(url: &str) -> (r: String)
    ensures
        r@ == scheme_prefix(url@),
{
    let n = url.unicode_len();
    let mut out = String::new();
    let mut i: usize = 0;
    while i < n
        invariant
            i <= n,
            n == url@.len(),
            forall|j: int| 0 <= j < i ==> url@[j] != ':',
            out@ == url@.subrange(0, i as int),
        decreases n - i,
    {
        let c = url.get_char(i);
        if c == ':' {
            proof {
                lemma_scheme_prefix(url@, i as int);
            }
            return out;
        }
        crate::strutil::push_char(&mut out, c);
        proof {
            assert(out@ =~= url@.subrange(0, i + 1));
        }
        i += 1;
    }
    proof {
        lemma_scheme_prefix(url@, n as int);
        assert(out@ =~= url@.subrange(0, n as int));
    }
    out
}

proof fn lemma_scheme_prefix(url: Seq<char>, i: int)
    requires
        0 <= i <= url.len(),
        forall|j: int| 0 <= j < i ==> url[j] != ':',
        i < url.len() ==> url[i] == ':',
    ensures
        scheme_prefix(url) == url.subrange(0, i),
    decreases url.len(),
{
    if url.len() == 0 {
        assert(url.subrange(0, 0) =~= Seq::<char>::empty());
    } else if url[0] == ':' {
        assert(i == 0);
        assert(url.subrange(0, 0) =~= Seq::<char>::empty());
    } else {
        assert(i >= 1);
        assert(forall|j: int| 0 <= j < i - 1 ==> #[trigger] url.drop_first()[j] == url[j + 1]);
        lemma_scheme_prefix(url.drop_first(), i - 1);
        assert(scheme_prefix(url) =~= url.subrange(0, i)) by {
            assert(url.drop_first().subrange(0, i - 1) =~= url.subrange(1, i));
            assert(seq![url[0]] + url.subrange(1, i) =~= url.subrange(0, i));
        }
    }
}

/// Everything the manifest updater needs: the repository URL, how to
/// authenticate against it, and the detected provider.
#[derive(Clone, Debug)]
pub struct UpdaterConfig {
    pub git_url: String,
    pub connection_type: GitConnectionType,
    pub auth_token: Option<String>,
    pub auth_username: Option<String>,
    pub provider: GitProvider,
}

impl UpdaterConfig {
    /// Builds the configuration, detecting the provider from the URL;
    /// a URL with a scheme other than `ssh`, `https` or `http` is
    /// rejected.
    pub fn new(git_url: String, auth_token: Option<String>, auth_username: Option<String>) -> (r:
        Result<Self, RecommenderError>)
        ensures
            match connection_type_of(git_url@) {
                Some(ct) => r matches Ok(c) && c.git_url == git_url && c.connection_type == ct
                    && c.auth_token == auth_token && c.auth_username == auth_username
                    && c.provider == provider_of(git_url@),
                None => r matches Err(e) && recommender_error_is_bad_scheme(e, git_url@),
            },
    {
        let provider = GitProvider::from_url(git_url.as_str());
        Self::with_provider(git_url, auth_token, auth_username, provider)
    }

    /// Builds the configuration with an explicit provider override.
    pub fn with_provider(
        git_url: String,
        auth_token: Option<String>,
        auth_username: Option<String>,
        provider: GitProvider,
    ) -> (r: Result<Self, RecommenderError>)
        ensures
            match connection_type_of(git_url@) {
                Some(ct) => r matches Ok(c) && c.git_url == git_url && c.connection_type == ct
                    && c.auth_token == auth_token && c.auth_username == auth_username
                    && c.provider == provider,
                None => r matches Err(e) && recommender_error_is_bad_scheme(e, git_url@),
            },
    {
        let connection_type = if str_starts_with(git_url.as_str(), "ssh://") {
            GitConnectionType::Ssh
        } else if str_starts_with(git_url.as_str(), "https://") || str_starts_with(
            git_url.as_str(),
            "http://",
        ) {
            GitConnectionType::Https
        } else {
            let mut m = String::from_str("Unsupported git URL scheme: ");
            let sp = scheme_prefix_exec(git_url.as_str());
            m.append(sp.as_str());
            return Err(RecommenderError::Config(ConfigError::InvalidValue(m)));
        };
        Ok(Self { git_url, connection_type, auth_token, auth_username, provider })
    }
}

/// The error returned for a URL whose scheme the updater does not take.
pub open spec fn recommender_error_is_bad_scheme(e: RecommenderError, url: Seq<char>) -> bool {
    e matches RecommenderError::Config(inner) && inner matches ConfigError::InvalidValue(m)
        && m@ == "Unsupported git URL scheme: "@ + scheme_prefix(url)
}

} // verus!
