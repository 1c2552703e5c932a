use vstd::prelude::*;

use crate::types::Pubkey;

verus! {

// The identities an operation is invoked with: its signer, and the records
// it names. Records derived from these are looked up by the store.
/// Signer and funding wallet of group creation.
#[derive(Clone, Copy, PartialEq, Eq, Structural, Debug)]
pub struct CreateWorkGroup {
    pub group_authority: Pubkey,
}

/// Signer and group of group teardown; the balance goes to the signer's wallet.
#[derive(Clone, Copy, PartialEq, Eq, Structural, Debug)]
pub struct CloseWorkGroup {
    pub group_authority: Pubkey,
    pub group: Pubkey,
}

/// Signer and group of a device registration.
#[derive(Clone, Copy, PartialEq, Eq, Structural, Debug)]
pub struct RegisterDevice {
    pub group_authority: Pubkey,
    pub work_group: Pubkey,
}

/// Signer, device and group of a device closure.
#[derive(Clone, Copy, PartialEq, Eq, Structural, Debug)]
pub struct CloseDevice {
    pub group_authority: Pubkey,
    pub device: Pubkey,
    pub work_group: Pubkey,
}

/// Signer and device of a device update.
#[derive(Clone, Copy, PartialEq, Eq, Structural, Debug)]
pub struct UpdateDevice {
    pub device_authority: Pubkey,
    pub device: Pubkey,
}

/// Signer and group of spec creation.
#[derive(Clone, Copy, PartialEq, Eq, Structural, Debug)]
pub struct CreateWorkSpec {
    pub group_authority: Pubkey,
    pub work_group: Pubkey,
}

/// Signer, spec and group of spec closure.
#[derive(Clone, Copy, PartialEq, Eq, Structural, Debug)]
pub struct CloseWorkSpec {
    pub group_authority: Pubkey,
    pub spec: Pubkey,
    pub work_group: Pubkey,
}

/// Signer, referenced spec and group of deployment creation.
#[derive(Clone, Copy, PartialEq, Eq, Structural, Debug)]
pub struct CreateDeployment {
    pub group_authority: Pubkey,
    pub spec: Pubkey,
    pub work_group: Pubkey,
}

/// Signer, deployment and group of deployment closure.
#[derive(Clone, Copy, PartialEq, Eq, Structural, Debug)]
pub struct CloseDeployment {
    pub group_authority: Pubkey,
    pub deployment: Pubkey,
    pub work_group: Pubkey,
}

/// Signer, group, deployment and target device of scheduling.
#[derive(Clone, Copy, PartialEq, Eq, Structural, Debug)]
pub struct Schedule {
    pub group_authority: Pubkey,
    pub work_group: Pubkey,
    pub deployment: Pubkey,
    pub device: Pubkey,
}

} // verus!
