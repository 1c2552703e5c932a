//! A ledger of work groups, the devices they register under a license quota,
//! the workload specs they define, and the deployments whose replica units
//! they schedule onto devices.
use vstd::prelude::*;

pub mod accounts;
pub mod laws;
pub mod ledger;
pub mod quota;
pub mod registry;
pub mod store;
pub mod types;

pub use accounts::{
    CloseDeployment, CloseDevice, CloseWorkGroup, CloseWorkSpec, CreateDeployment, CreateWorkGroup,
    CreateWorkSpec, RegisterDevice, Schedule, UpdateDevice,
};
pub use ledger::{Holding, ReplicaLedger};
pub use quota::can_register_device;
pub use registry::{Registry, Seed};
pub use store::Worknet;
pub use types::{
    Deployment, DeploymentArg, DeploymentArgType, Device, DeviceStatus, ErrorCode, Pubkey,
    WorkGroup, WorkSpec, WorkType, SYSTEM_PROGRAM_ID,
};

verus! {

} // verus!
