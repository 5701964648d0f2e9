//! What is known of the replicas of a service.
use vstd::prelude::*;

verus! {

/// One replica and where it runs.
#[derive(Debug, Clone)]
pub struct ReplicaInfo {
    pub replica_id: String,
    pub container_id: Option<String>,
    pub pod_name: Option<String>,
    pub service_name: Option<String>,
    pub status: ReplicaStatus,
}

#[derive(Debug, Clone, Copy, PartialEq, Eq, Structural)]
pub enum ReplicaStatus {
    Normal,
    Abnormal,
    Unknown,
}

/// What made a replica look abnormal.
#[derive(Debug, Clone, Copy, PartialEq, Eq, Structural)]
pub enum AnomalyType {
    HighErrorRate,
    PerformanceAnomaly,
    LogPatternAnomaly,
    ServiceUnavailable,
    ResourceAnomaly,
}

} // verus!
