//! The composite status of the service: whether its store and the chain
//! node that it indexes can be reached, and for how long it has run. A node
//! that cannot be asked counts as down; asking for the status never fails.

use vstd::prelude::*;
use vstd::std_specs::convert::FromSpecImpl;
use crate::registry::AssetRegistry;

verus! {

/// Whether a collaborator of the service is in working order.
#[derive(Clone, Copy, Debug, PartialEq, Eq, Structural)]
pub enum ServiceStatus {
    OK,
    NotOk,
}

/// What the chain node answers when asked for its health.
#[derive(Clone, Copy, Debug, PartialEq, Eq, Structural)]
pub struct FuelNodeHealthResponse {
    pub up: bool,
}

impl Default for FuelNodeHealthResponse {
    /// The answer that stands in for a missing or malformed one: down.
    fn default() -> (health: FuelNodeHealthResponse)
        ensures
            !health.up,
    {
        FuelNodeHealthResponse { up: false }
    }
}

impl From<FuelNodeHealthResponse> for ServiceStatus {
    fn from(health: FuelNodeHealthResponse) -> (status: ServiceStatus) {
        if health.up {
            ServiceStatus::OK
        } else {
            ServiceStatus::NotOk
        }
    }
}

impl FromSpecImpl<FuelNodeHealthResponse> for ServiceStatus {
    open spec fn obeys_from_spec() -> bool {
        true
    }

    open spec fn from_spec(health: FuelNodeHealthResponse) -> ServiceStatus {
        if health.up {
            ServiceStatus::OK
        } else {
            ServiceStatus::NotOk
        }
    }
}

/// How asking the chain node for its health ended.
#[derive(Clone, Debug, PartialEq, Eq)]
pub enum HealthProbe {
    /// The node answered; the answer is missing where its body could not be
    /// read or was not a health summary.
    Answered(Option<FuelNodeHealthResponse>),
    /// The node could not be reached; the text says why.
    Unreachable(String),
}

/// The status that a probe of the chain node stands for: in working order
/// exactly where the node answered that it is up.
pub open spec fn fuel_status(probe: HealthProbe) -> ServiceStatus {
    match probe {
        HealthProbe::Answered(Some(health)) => if health.up {
            ServiceStatus::OK
        } else {
            ServiceStatus::NotOk
        },
        HealthProbe::Answered(None) => ServiceStatus::NotOk,
        HealthProbe::Unreachable(_) => ServiceStatus::NotOk,
    }
}

/// The status of the chain node, from the probe that asked for it.
pub fn get_fuel_status(probe: HealthProbe) -> (status: ServiceStatus)
    ensures
        status == fuel_status(probe),
{
    match probe {
        HealthProbe::Answered(answer) => {
            let health = match answer {
                Some(health) => health,
                None => FuelNodeHealthResponse::default(),
            };
            ServiceStatus::from(health)
        },
        HealthProbe::Unreachable(_) => ServiceStatus::NotOk,
    }
}

/// The composite status of the service.
#[derive(Clone, Copy, Debug, PartialEq, Eq, Structural)]
pub struct HealthReport {
    pub fuel_core_status: ServiceStatus,
    pub uptime_seconds: u64,
    pub database_status: ServiceStatus,
}

/// Reports the status of the store, the status of the chain node and the
/// time for which the service has run. The store is in working order exactly
/// where it can be reached.
pub fn health_check(registry: &AssetRegistry, probe: HealthProbe, uptime_seconds: u64) -> (report:
    HealthReport)
    ensures
        report.fuel_core_status == fuel_status(probe),
        report.uptime_seconds == uptime_seconds,
        report.database_status == (if registry@.online {
            ServiceStatus::OK
        } else {
            ServiceStatus::NotOk
        }),
{
    let database_status = if registry.is_connected() {
        ServiceStatus::OK
    } else {
        ServiceStatus::NotOk
    };
    HealthReport { fuel_core_status: get_fuel_status(probe), uptime_seconds, database_status }
}

} // verus!
