//! Plain data carried out of the cluster inventory: deployments and the
//! resource fields of their containers. The API calls that fill these
//! values live outside the library.

use vstd::prelude::*;

verus! {

/// One deployment with the containers of its pod template.
#[derive(Clone, Debug)]
pub struct DeploymentResources {
    pub name: String,
    pub namespace: String,
    pub containers: Vec<ContainerResources>,
}

/// One container's currently declared resource fields, absent when unset.
#[derive(Clone, Debug)]
pub struct ContainerResources {
    pub name: String,
    pub cpu_request: Option<String>,
    pub cpu_limit: Option<String>,
    pub memory_request: Option<String>,
    pub memory_limit: Option<String>,
}

} // verus!
