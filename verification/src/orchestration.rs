//! Requests to the cluster and to the image builder, and the records that
//! the frontend sends about nodes. Performing the requests is the caller's.
use vstd::prelude::*;
use crate::databasespec::{K8sNode, NodeType, NodeTypeView};
use crate::handlers::{NodeEntry, NodeEntryView};

verus! {

/// A node the frontend asks to create.
pub struct FrontendNodeCreateRequest {
    pub nodename: String,
    pub ip: String,
}

/// The node the frontend asks to switch to.
pub struct FrontendChangeNodeRequest {
    pub node_id: String,
}

/// Builds the game server's image.
pub struct BuildImageRequest {}

/// Asks the cluster for a free game server.
pub struct GetK8sGameserversRequest {}

/// Asks whether an address belongs to one of the cluster's game servers.
pub struct VerifyIsK8sGameserverRequest {
    pub server: String,
}

/// Applies a deployment manifest to the cluster.
pub struct BuildDeploymentRequest {
    pub deployment: String,
}

/// Asks the cluster for its nodes.
pub struct ListNodeInfoRequest {}

/// Asks the cluster what an address is.
pub struct GetK8sTypeRequest {
    pub server: String,
}

/// The entry a cluster node is listed as: its name and address, its
/// Kubernetes type, and an unknown node type.
pub fn cluster_entry(node: &K8sNode) -> (r: NodeEntry)
    ensures
        r@ == (NodeEntryView {
            name: node.name@,
            ip: node.ip@,
            nodetype: NodeTypeView::Unknown,
            k8s_type: node.k8s_type,
        }),
{
    NodeEntry {
        name: node.name.clone(),
        ip: node.ip.clone(),
        nodetype: NodeType::Unknown,
        k8s_type: node.k8s_type,
    }
}

} // verus!
