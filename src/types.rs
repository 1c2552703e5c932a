use vstd::prelude::*;

verus! {

/// An account identity. Identities of records that the store derives are
/// never zero: zero is the system program's identity, used as the empty slot.
pub type Pubkey = u64;

/// The empty-slot sentinel written over a closed device's entry.
pub const SYSTEM_PROGRAM_ID: Pubkey = 0;

/// Failures that an operation reports to its caller. Every failing operation
/// leaves the store unchanged.
#[derive(Clone, Copy, PartialEq, Eq, Structural, Debug)]
pub enum ErrorCode {
    /// Not enough license balance: a zero deposit, a wallet that cannot cover
    /// the deposit, or a device quota that is used up.
    InsufficentLicenseTokens,
    /// A deployment's unscheduled pool holds fewer replica units than asked for.
    InsuffientReplicaTokens,
    /// The group still lists specs.
    OrphanedSpecs,
    /// The group still lists a live device.
    OrphanedDevices,
    /// The group still lists deployments.
    OrphanedDeployments,
    /// The derived identity is already held by a live record.
    AccountAlreadyInUse,
    /// No fresh identity is left to derive.
    IdentitiesExhausted,
    /// A named record does not exist, or is not listed where it must be.
    AccountNotFound,
    /// The signer is not the authority the record names.
    Unauthorized,
    /// A balance would exceed the range of its counter.
    BalanceOverflow,
}

/// The workload driver of a spec.
#[derive(Clone, Copy, PartialEq, Eq, Structural, Debug)]
pub enum WorkType {
    DockerCompose,
}

impl Default for WorkType {
    fn default() -> (r: Self)
        ensures
            r == WorkType::DockerCompose,
    {
        WorkType::DockerCompose
    }
}

/// A device's self-reported state. Any status may follow any other.
#[derive(Clone, Copy, PartialEq, Eq, Structural, Debug)]
pub enum DeviceStatus {
    RegistrationRequested,
    Registered,
    Delinquent,
    Cordoned,
}

impl Default for DeviceStatus {
    fn default() -> (r: Self)
        ensures
            r == DeviceStatus::RegistrationRequested,
    {
        DeviceStatus::RegistrationRequested
    }
}

/// The type of a deployment argument's value.
#[derive(Clone, Copy, PartialEq, Eq, Structural, Debug)]
pub enum DeploymentArgType {
    String,
    Number,
}

impl Default for DeploymentArgType {
    fn default() -> (r: Self)
        ensures
            r == DeploymentArgType::String,
    {
        DeploymentArgType::String
    }
}

/// A typed argument of a deployment.
#[derive(Debug)]
pub struct DeploymentArg {
    pub arg_name: String,
    pub arg_value: String,
    pub arg_type: DeploymentArgType,
}

/// A reusable workload definition of a group.
#[derive(Debug)]
pub struct WorkSpec {
    pub name: String,
    pub work_type: WorkType,
    pub created_at: u64,
    pub modified_at: u64,
    pub url_or_contents: String,
    pub contents_sha256: String,
    pub metadata_url: String,
    pub mutable: bool,
}

/// A compute device registered by a group.
#[derive(Debug)]
pub struct Device {
    pub ipv4: [u8; 4],
    pub hostname: String,
    pub bump: u8,
    pub status: DeviceStatus,
    pub device_authority: Pubkey,
    pub work_group: Pubkey,
}

/// A tenant: its authority, its name and identifier, and the ordered lists of
/// its specs, device slots and deployments.
#[derive(Debug)]
pub struct WorkGroup {
    pub group_authority: Pubkey,
    pub specs: Vec<Pubkey>,
    pub devices: Vec<Pubkey>,
    pub deployments: Vec<Pubkey>,
    pub name: String,
    pub identifier: String,
    pub signal_server_url: String,
}

/// An instantiation of a spec with a fixed number of replicas.
#[derive(Debug)]
pub struct Deployment {
    pub spec: Pubkey,
    pub name: String,
    pub args: Vec<DeploymentArg>,
    pub replicas: u8,
}

impl WorkGroup {
    /// Whether some device slot still holds a live identity.
    pub open spec fn has_live_device(&self) -> bool {
        exists|i: int| 0 <= i < self.devices@.len() && self.devices@[i] != SYSTEM_PROGRAM_ID
    }

    /// Decides whether some device slot still holds a live identity.
    pub fn any_live_device(&self) -> (r: bool)
        ensures
            r == self.has_live_device(),
    {
        let mut i: usize = 0;
        while i < self.devices.len()
            invariant
                0 <= i <= self.devices@.len(),
                forall|j: int| 0 <= j < i ==> #[trigger] self.devices@[j] == SYSTEM_PROGRAM_ID,
            decreases self.devices@.len() - i,
        {
            if self.devices[i] != SYSTEM_PROGRAM_ID {
                return true;
            }
            i = i + 1;
        }
        false
    }
}

/// Whether `i` is the first position of `x` in `s`.
pub open spec fn is_first_index(s: Seq<Pubkey>, x: Pubkey, i: int) -> bool {
    &&& 0 <= i < s.len()
    &&& s[i] == x
    &&& forall|j: int| 0 <= j < i ==> s[j] != x
}

/// Finds the first position of `x` in `v`.
pub fn position_of(v: &Vec<Pubkey>, x: Pubkey) -> (r: Option<usize>)
    ensures
        r is None <==> !v@.contains(x),
        r is Some ==> is_first_index(v@, x, r->Some_0 as int),
{
    let mut i: usize = 0;
    while i < v.len()
        invariant
            0 <= i <= v@.len(),
            forall|j: int| 0 <= j < i ==> v@[j] != x,
        decreases v@.len() - i,
    {
        if v[i] == x {
            return Some(i);
        }
        i = i + 1;
    }
    None
}

} // verus!
