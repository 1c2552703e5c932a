use vstd::prelude::*;

use std::collections::HashMap;

use crate::accounts::{
    CloseDeployment, CloseDevice, CloseWorkGroup, CloseWorkSpec, CreateDeployment, CreateWorkGroup,
    CreateWorkSpec, RegisterDevice, Schedule, UpdateDevice,
};
use crate::quota::{can_register_device, quota_allows};
use crate::ledger::{allowance_of, held_by, ReplicaLedger};
use crate::registry::{Registry, Seed, SeedKey};
use crate::types::{
    Deployment, Device, DeviceStatus, ErrorCode, Pubkey, WorkGroup, WorkSpec, WorkType, SYSTEM_PROGRAM_ID, is_first_index, position_of,
};

verus! {

/// The explicit world of records and balances: every group, device, spec and
/// deployment keyed by its derived identity, the license pool of each group,
/// the license wallets of outside holders, and the replica ledger of each
/// deployment that was ever created.
#[derive(Debug)]
pub struct Worknet {
    pub registry: Registry,
    pub groups: HashMap<u64, WorkGroup>,
    pub devices: HashMap<u64, Device>,
    pub specs: HashMap<u64, WorkSpec>,
    pub deployments: HashMap<u64, Deployment>,
    pub replica_ledgers: HashMap<u64, ReplicaLedger>,
    pub license_pools: HashMap<u64, u64>,
    pub license_wallets: HashMap<u64, u64>,
}

impl Worknet {
    /// The store's invariant: every record's identity was derived here;
    /// every group has a license pool and nothing else does; every ledger balances; every live deployment's ledger still
    /// accounts for exactly the replicas it minted.
    pub open spec fn wf(&self) -> bool {
        &&& self.registry.wf()
        &&& forall|id: Pubkey| #[trigger]
            self.groups@.contains_key(id) ==> self.registry.issued(id)
        &&& forall|id: Pubkey| #[trigger]
            self.devices@.contains_key(id) ==> self.registry.issued(id)
        &&& forall|id: Pubkey| #[trigger]
            self.specs@.contains_key(id) ==> self.registry.issued(id)
        &&& forall|id: Pubkey| #[trigger]
            self.replica_ledgers@.contains_key(id) ==> self.registry.issued(id)
        &&& forall|g: Pubkey|
            #[trigger] self.license_pools@.contains_key(g) <==> self.groups@.contains_key(g)
        &&& forall|d: Pubkey| #[trigger]
            self.replica_ledgers@.contains_key(d) ==> self.replica_ledgers@[d].wf()
        &&& forall|d: Pubkey| #[trigger]
            self.deployments@.contains_key(d) ==> {
                &&& self.replica_ledgers@.contains_key(d)
                &&& self.replica_ledgers@[d].minted == self.deployments@[d].replicas
            }
    }

    /// License units in the wallet of `owner`.
    pub open spec fn wallet_balance(&self, owner: Pubkey) -> int {
        if self.license_wallets@.contains_key(owner) {
            self.license_wallets@[owner] as int
        } else {
            0
        }
    }

    /// License units in the pool of group `g`.
    pub open spec fn license_balance(&self, g: Pubkey) -> int {
        if self.license_pools@.contains_key(g) {
            self.license_pools@[g] as int
        } else {
            0
        }
    }

    /// The identity a seed would be given now: its own if it has one, else
    /// the next fresh one.
    pub open spec fn identity_for(&self, k: SeedKey) -> Pubkey {
        if self.registry.knows(k) {
            self.registry.resolve(k)
        } else {
            self.registry.next
        }
    }

    /// Whether a new seed would find no identity left.
    pub open spec fn exhausted_for(&self, k: SeedKey) -> bool {
        !self.registry.knows(k) && self.registry.next == u64::MAX
    }

    /// Whether the seed already names a live record in `table`.
    pub open spec fn taken<V>(&self, k: SeedKey, table: Map<u64, V>) -> bool {
        self.registry.knows(k) && table.contains_key(self.registry.resolve(k))
    }

    pub fn new() -> (r: Self)
        ensures
            r.wf(),
            r.groups@ == Map::<u64, WorkGroup>::empty(),
            r.devices@ == Map::<u64, Device>::empty(),
            r.specs@ == Map::<u64, WorkSpec>::empty(),
            r.deployments@ == Map::<u64, Deployment>::empty(),
            r.replica_ledgers@ == Map::<u64, ReplicaLedger>::empty(),
            r.license_pools@ == Map::<u64, u64>::empty(),
            r.license_wallets@ == Map::<u64, u64>::empty(),
            forall|k: SeedKey| !r.registry.knows(k),
            r.registry.next == 1,
    {
        Worknet {
            registry: Registry::new(),
            groups: HashMap::new(),
            devices: HashMap::new(),
            specs: HashMap::new(),
            deployments: HashMap::new(),
            replica_ledgers: HashMap::new(),
            license_pools: HashMap::new(),
            license_wallets: HashMap::new(),
        }
    }

    /// Reads the license wallet of `owner`.
    pub fn wallet_of(&self, owner: Pubkey) -> (r: u64)
        ensures
            r == self.wallet_balance(owner),
    {
        match self.license_wallets.get(&owner) {
            Some(v) => *v,
            None => 0,
        }
    }

    /// Reads the license pool of group `g`.
    pub fn license_of(&self, g: Pubkey) -> (r: u64)
        ensures
            r == self.license_balance(g),
    {
        match self.license_pools.get(&g) {
            Some(v) => *v,
            None => 0,
        }
    }

    /// Credits `amount` license units, issued outside this store, to the
    /// wallet of `owner`.
    pub fn fund_license_wallet(&mut self, owner: Pubkey, amount: u64) -> (r: Result<(), ErrorCode>)
        requires
            old(self).wf(),
        ensures
            final(self).wf(),
            r is Err <==> old(self).wallet_balance(owner) + amount > u64::MAX,
            r is Err ==> r == Err::<(), ErrorCode>(ErrorCode::BalanceOverflow) && *final(self)
                == *old(self),
            r is Ok ==> final(self).license_wallets@ == old(self).license_wallets@.insert(
                owner,
                (old(self).wallet_balance(owner) + amount) as u64,
            ),
            r is Ok ==> {
                &&& final(self).registry == old(self).registry
                &&& final(self).groups@ == old(self).groups@
                &&& final(self).devices@ == old(self).devices@
                &&& final(self).specs@ == old(self).specs@
                &&& final(self).deployments@ == old(self).deployments@
                &&& final(self).replica_ledgers@ == old(self).replica_ledgers@
                &&& final(self).license_pools@ == old(self).license_pools@
            },
    {
        let have = self.wallet_of(owner);
        if have > u64::MAX - amount {
            return Err(ErrorCode::BalanceOverflow);
        }
        self.license_wallets.insert(owner, have + amount);
        Ok(())
    }

    /// The outcome that `create_work_group` owes for these inputs.
    pub open spec fn create_work_group_result(
        &self,
        group_authority: Pubkey,
        identifier: Seq<char>,
        deposit: u64,
    ) -> Result<Pubkey, ErrorCode> {
        let k = SeedKey::WorkGroup(identifier);
        if deposit == 0 {
            Err(ErrorCode::InsufficentLicenseTokens)
        } else if self.taken(k, self.groups@) {
            Err(ErrorCode::AccountAlreadyInUse)
        } else if self.wallet_balance(group_authority) < deposit {
            Err(ErrorCode::InsufficentLicenseTokens)
        } else if self.exhausted_for(k) {
            Err(ErrorCode::IdentitiesExhausted)
        } else {
            Ok(self.identity_for(k))
        }
    }

    /// What a successful group creation did: the group `g` exists, empty,
    /// with its pool holding the deposit taken from the signer's wallet.
    pub open spec fn create_work_group_effect(
        pre: Worknet,
        post: Worknet,
        group_authority: Pubkey,
        name: Seq<char>,
        identifier: Seq<char>,
        signal_server_url: Seq<char>,
        deposit: u64,
        g: Pubkey,
    ) -> bool {
        &&& !pre.groups@.contains_key(g)
        &&& post.groups@.contains_key(g)
        &&& post.groups@ == pre.groups@.insert(g, post.groups@[g])
        &&& post.groups@[g].group_authority == group_authority
        &&& post.groups@[g].specs@.len() == 0
        &&& post.groups@[g].devices@.len() == 0
        &&& post.groups@[g].deployments@.len() == 0
        &&& post.groups@[g].name@ == name
        &&& post.groups@[g].identifier@ == identifier
        &&& post.groups@[g].signal_server_url@ == signal_server_url
        &&& post.license_pools@ == pre.license_pools@.insert(g, deposit)
        &&& post.license_wallets@ == pre.license_wallets@.insert(
            group_authority,
            (pre.wallet_balance(group_authority) - deposit) as u64,
        )
        &&& Registry::extends(pre.registry, post.registry, SeedKey::WorkGroup(identifier))
        &&& post.registry.knows(SeedKey::WorkGroup(identifier))
        &&& post.registry.resolve(SeedKey::WorkGroup(identifier)) == g
        &&& post.devices@ == pre.devices@
        &&& post.specs@ == pre.specs@
        &&& post.deployments@ == pre.deployments@
        &&& post.replica_ledgers@ == pre.replica_ledgers@
    }

    /// Creates a group keyed by `identifier`, moving `deposit` license units
    /// from the signer's wallet into the group's pool.
    pub fn create_work_group(
        &mut self,
        ctx: &CreateWorkGroup,
        name: String,
        identifier: String,
        signal_server_url: String,
        deposit: u64,
    ) -> (r: Result<Pubkey, ErrorCode>)
        requires
            old(self).wf(),
        ensures
            final(self).wf(),
            r == old(self).create_work_group_result(ctx.group_authority, identifier@, deposit),
            r is Err ==> *final(self) == *old(self),
            r is Ok ==> Self::create_work_group_effect(
                *old(self),
                *final(self),
                ctx.group_authority,
                name@,
                identifier@,
                signal_server_url@,
                deposit,
                r->Ok_0,
            ),
    {
        if deposit == 0 {
            return Err(ErrorCode::InsufficentLicenseTokens);
        }
        let seed = Seed::WorkGroup(identifier.clone());
        match self.registry.find(&seed) {
            Some(id) => {
                if self.groups.contains_key(&id) {
                    return Err(ErrorCode::AccountAlreadyInUse);
                }
            },
            None => {},
        }
        let have = self.wallet_of(ctx.group_authority);
        if have < deposit {
            return Err(ErrorCode::InsufficentLicenseTokens);
        }
        let g = match self.registry.derive_id(seed) {
            Some(id) => id,
            None => {
                return Err(ErrorCode::IdentitiesExhausted);
            },
        };
        let group = WorkGroup {
            group_authority: ctx.group_authority,
            specs: Vec::new(),
            devices: Vec::new(),
            deployments: Vec::new(),
            name,
            identifier,
            signal_server_url,
        };
        self.groups.insert(g, group);
        self.license_pools.insert(g, deposit);
        self.license_wallets.insert(ctx.group_authority, have - deposit);
        Ok(g)
    }

    /// The outcome that `close_work_group` owes for these inputs.
    pub open spec fn close_work_group_result(&self, ctx: CloseWorkGroup, force: bool) -> Result<
        (),
        ErrorCode,
    > {
        let g = ctx.group;
        if !self.groups@.contains_key(g) {
            Err(ErrorCode::AccountNotFound)
        } else if self.groups@[g].group_authority != ctx.group_authority {
            Err(ErrorCode::Unauthorized)
        } else if !force && self.groups@[g].specs@.len() > 0 {
            Err(ErrorCode::OrphanedSpecs)
        } else if !force && self.groups@[g].has_live_device() {
            Err(ErrorCode::OrphanedDevices)
        } else if !force && self.groups@[g].deployments@.len() > 0 {
            Err(ErrorCode::OrphanedDeployments)
        } else if self.wallet_balance(ctx.group_authority) + self.license_balance(g) > u64::MAX {
            Err(ErrorCode::BalanceOverflow)
        } else {
            Ok(())
        }
    }

    /// What a successful group teardown did: the group and its pool are gone,
    /// and the pool's whole balance went to the signer's wallet.
    pub open spec fn close_work_group_effect(pre: Worknet, post: Worknet, ctx: CloseWorkGroup) -> bool {
        &&& post.groups@ == pre.groups@.remove(ctx.group)
        &&& post.license_pools@ == pre.license_pools@.remove(ctx.group)
        &&& post.license_wallets@ == pre.license_wallets@.insert(
            ctx.group_authority,
            (pre.wallet_balance(ctx.group_authority) + pre.license_balance(ctx.group)) as u64,
        )
        &&& post.registry == pre.registry
        &&& post.devices@ == pre.devices@
        &&& post.specs@ == pre.specs@
        &&& post.deployments@ == pre.deployments@
        &&& post.replica_ledgers@ == pre.replica_ledgers@
    }

    /// Tears a group down, returning its license pool to the signer. Unless
    /// `force` is set, a group that still lists specs, a live device or
    /// deployments is refused.
    pub fn close_work_group(&mut self, ctx: &CloseWorkGroup, force: bool) -> (r: Result<
        (),
        ErrorCode,
    >)
        requires
            old(self).wf(),
        ensures
            final(self).wf(),
            r == old(self).close_work_group_result(*ctx, force),
            r is Err ==> *final(self) == *old(self),
            r is Ok ==> Self::close_work_group_effect(*old(self), *final(self), *ctx),
    {
        let g = ctx.group;
        let group = match self.groups.get(&g) {
            Some(grp) => grp,
            None => {
                return Err(ErrorCode::AccountNotFound);
            },
        };
        if group.group_authority != ctx.group_authority {
            return Err(ErrorCode::Unauthorized);
        }
        if group.specs.len() > 0 && !force {
            return Err(ErrorCode::OrphanedSpecs);
        }
        if !force && group.any_live_device() {
            return Err(ErrorCode::OrphanedDevices);
        }
        if group.deployments.len() > 0 && !force {
            return Err(ErrorCode::OrphanedDeployments);
        }
        let pool = self.license_of(g);
        let have = self.wallet_of(ctx.group_authority);
        if have > u64::MAX - pool {
            return Err(ErrorCode::BalanceOverflow);
        }
        self.groups.remove(&g);
        self.license_pools.remove(&g);
        self.license_wallets.insert(ctx.group_authority, have + pool);
        Ok(())
    }

    /// The fields of a group that no list operation changes.
    pub open spec fn same_header(a: WorkGroup, b: WorkGroup) -> bool {
        &&& a.group_authority == b.group_authority
        &&& a.name@ == b.name@
        &&& a.identifier@ == b.identifier@
        &&& a.signal_server_url@ == b.signal_server_url@
    }

    /// The outcome that `register_device` owes for these inputs.
    pub open spec fn register_device_result(&self, ctx: RegisterDevice, device_authority: Pubkey) -> Result<
        Pubkey,
        ErrorCode,
    > {
        let g = ctx.work_group;
        let k = SeedKey::Device(device_authority);
        if !self.groups@.contains_key(g) {
            Err(ErrorCode::AccountNotFound)
        } else if self.groups@[g].group_authority != ctx.group_authority {
            Err(ErrorCode::Unauthorized)
        } else if self.taken(k, self.devices@) {
            Err(ErrorCode::AccountAlreadyInUse)
        } else if !quota_allows(self.groups@[g].devices@.len() as int, self.license_balance(g)) {
            Err(ErrorCode::InsufficentLicenseTokens)
        } else if self.exhausted_for(k) {
            Err(ErrorCode::IdentitiesExhausted)
        } else {
            Ok(self.identity_for(k))
        }
    }

    /// What a successful registration did: device `d` exists with default
    /// fields and is appended to the group's device list.
    pub open spec fn register_device_effect(
        pre: Worknet,
        post: Worknet,
        ctx: RegisterDevice,
        device_authority: Pubkey,
        d: Pubkey,
    ) -> bool {
        let g = ctx.work_group;
        &&& post.groups@ == pre.groups@.insert(g, post.groups@[g])
        &&& post.groups@[g].devices@ == pre.groups@[g].devices@.push(d)
        &&& post.groups@[g].specs@ == pre.groups@[g].specs@
        &&& post.groups@[g].deployments@ == pre.groups@[g].deployments@
        &&& Self::same_header(post.groups@[g], pre.groups@[g])
        &&& !pre.devices@.contains_key(d)
        &&& post.devices@ == pre.devices@.insert(d, post.devices@[d])
        &&& post.devices@[d].device_authority == device_authority
        &&& post.devices@[d].work_group == g
        &&& post.devices@[d].status == DeviceStatus::RegistrationRequested
        &&& post.devices@[d].hostname@.len() == 0
        &&& post.devices@[d].ipv4@ == seq![0u8, 0u8, 0u8, 0u8]
        &&& post.devices@[d].bump == 0
        &&& Registry::extends(pre.registry, post.registry, SeedKey::Device(device_authority))
        &&& post.registry.knows(SeedKey::Device(device_authority))
        &&& post.registry.resolve(SeedKey::Device(device_authority)) == d
        &&& post.license_pools@ == pre.license_pools@
        &&& post.license_wallets@ == pre.license_wallets@
        &&& post.specs@ == pre.specs@
        &&& post.deployments@ == pre.deployments@
        &&& post.replica_ledgers@ == pre.replica_ledgers@
    }

    /// Registers the device of `device_authority` in a group, within the
    /// group's quota of ten device slots per license unit.
    pub fn register_device(&mut self, ctx: &RegisterDevice, device_authority: Pubkey) -> (r: Result<
        Pubkey,
        ErrorCode,
    >)
        requires
            old(self).wf(),
        ensures
            final(self).wf(),
            r == old(self).register_device_result(*ctx, device_authority),
            r is Err ==> *final(self) == *old(self),
            r is Ok ==> Self::register_device_effect(
                *old(self),
                *final(self),
                *ctx,
                device_authority,
                r->Ok_0,
            ),
            r is Ok ==> final(self).groups@[ctx.work_group].devices@.len()
                <= final(self).license_balance(ctx.work_group) * 10,
    {
        let g = ctx.work_group;
        let count: usize = match self.groups.get(&g) {
            Some(grp) => {
                if grp.group_authority != ctx.group_authority {
                    return Err(ErrorCode::Unauthorized);
                }
                grp.devices.len()
            },
            None => {
                return Err(ErrorCode::AccountNotFound);
            },
        };
        let seed = Seed::Device(device_authority);
        match self.registry.find(&seed) {
            Some(id) => {
                if self.devices.contains_key(&id) {
                    return Err(ErrorCode::AccountAlreadyInUse);
                }
            },
            None => {},
        }
        let licenses = self.license_of(g);
        if !can_register_device(count as u64, licenses) {
            return Err(ErrorCode::InsufficentLicenseTokens);
        }
        let d = match self.registry.derive_id(seed) {
            Some(id) => id,
            None => {
                return Err(ErrorCode::IdentitiesExhausted);
            },
        };
        let device = Device {
            ipv4: [0u8, 0u8, 0u8, 0u8],
            hostname: String::new(),
            bump: 0,
            status: DeviceStatus::RegistrationRequested,
            device_authority,
            work_group: g,
        };
        self.devices.insert(d, device);
        let mut grp = self.groups.remove(&g).unwrap();
        grp.devices.push(d);
        self.groups.insert(g, grp);
        proof {
            assert(self.groups@ =~= old(self).groups@.insert(g, self.groups@[g]));
        }
        Ok(d)
    }

    /// Whether identity `id` is the one derived from seed `k`.
    pub open spec fn derived_from(&self, k: SeedKey, id: Pubkey) -> bool {
        self.registry.knows(k) && self.registry.resolve(k) == id
    }

    /// The outcome that `close_device` owes for these inputs.
    pub open spec fn close_device_result(&self, ctx: CloseDevice) -> Result<(), ErrorCode> {
        let g = ctx.work_group;
        if !self.groups@.contains_key(g) {
            Err(ErrorCode::AccountNotFound)
        } else if self.groups@[g].group_authority != ctx.group_authority {
            Err(ErrorCode::Unauthorized)
        } else if !self.devices@.contains_key(ctx.device) {
            Err(ErrorCode::AccountNotFound)
        } else if self.devices@[ctx.device].work_group != g {
            Err(ErrorCode::Unauthorized)
        } else if !self.groups@[g].devices@.contains(ctx.device) {
            Err(ErrorCode::AccountNotFound)
        } else {
            Ok(())
        }
    }

    /// What a successful device closure did: the device's first slot in the
    /// group now holds the empty sentinel, the list keeps its length, and the
    /// device record is gone.
    pub open spec fn close_device_effect(pre: Worknet, post: Worknet, ctx: CloseDevice) -> bool {
        let g = ctx.work_group;
        &&& post.groups@ == pre.groups@.insert(g, post.groups@[g])
        &&& exists|i: int|
            is_first_index(pre.groups@[g].devices@, ctx.device, i) && post.groups@[g].devices@
                == pre.groups@[g].devices@.update(i, SYSTEM_PROGRAM_ID)
        &&& post.groups@[g].specs@ == pre.groups@[g].specs@
        &&& post.groups@[g].deployments@ == pre.groups@[g].deployments@
        &&& Self::same_header(post.groups@[g], pre.groups@[g])
        &&& post.devices@ == pre.devices@.remove(ctx.device)
        &&& post.registry == pre.registry
        &&& post.license_pools@ == pre.license_pools@
        &&& post.license_wallets@ == pre.license_wallets@
        &&& post.specs@ == pre.specs@
        &&& post.deployments@ == pre.deployments@
        &&& post.replica_ledgers@ == pre.replica_ledgers@
    }

    /// Closes a device: its slot in the group's list is overwritten with the
    /// empty sentinel, so that the positions of the other devices stay put.
    pub fn close_device(&mut self, ctx: &CloseDevice) -> (r: Result<(), ErrorCode>)
        requires
            old(self).wf(),
        ensures
            final(self).wf(),
            r == old(self).close_device_result(*ctx),
            r is Err ==> *final(self) == *old(self),
            r is Ok ==> Self::close_device_effect(*old(self), *final(self), *ctx),
    {
        let g = ctx.work_group;
        let index = match self.groups.get(&g) {
            Some(grp) => {
                if grp.group_authority != ctx.group_authority {
                    return Err(ErrorCode::Unauthorized);
                }
                match self.devices.get(&ctx.device) {
                    Some(device) => {
                        if device.work_group != g {
                            return Err(ErrorCode::Unauthorized);
                        }
                    },
                    None => {
                        return Err(ErrorCode::AccountNotFound);
                    },
                }
                match position_of(&grp.devices, ctx.device) {
                    Some(i) => i,
                    None => {
                        return Err(ErrorCode::AccountNotFound);
                    },
                }
            },
            None => {
                return Err(ErrorCode::AccountNotFound);
            },
        };
        let mut grp = self.groups.remove(&g).unwrap();
        grp.devices.set(index, SYSTEM_PROGRAM_ID);
        self.groups.insert(g, grp);
        self.devices.remove(&ctx.device);
        proof {
            assert(self.groups@ =~= old(self).groups@.insert(g, self.groups@[g]));
            assert(is_first_index(old(self).groups@[g].devices@, ctx.device, index as int));
        }
        Ok(())
    }

    /// The outcome that `update_device` owes for these inputs.
    pub open spec fn update_device_result(&self, ctx: UpdateDevice) -> Result<(), ErrorCode> {
        if !self.devices@.contains_key(ctx.device) {
            Err(ErrorCode::AccountNotFound)
        } else if self.devices@[ctx.device].device_authority != ctx.device_authority {
            Err(ErrorCode::Unauthorized)
        } else {
            Ok(())
        }
    }

    /// Overwrites a device's address, host name, salt and status. Only the
    /// device's own authority may do so; any status may follow any other.
    pub fn update_device(
        &mut self,
        ctx: &UpdateDevice,
        ipv4: [u8; 4],
        hostname: String,
        bump: u8,
        status: DeviceStatus,
    ) -> (r: Result<(), ErrorCode>)
        requires
            old(self).wf(),
        ensures
            final(self).wf(),
            r == old(self).update_device_result(*ctx),
            r is Err ==> *final(self) == *old(self),
            r is Ok ==> {
                let d = ctx.device;
                &&& final(self).devices@ == old(self).devices@.insert(d, final(self).devices@[d])
                &&& final(self).devices@[d].ipv4@ == ipv4@
                &&& final(self).devices@[d].hostname@ == hostname@
                &&& final(self).devices@[d].bump == bump
                &&& final(self).devices@[d].status == status
                &&& final(self).devices@[d].device_authority == old(self).devices@[d].device_authority
                &&& final(self).devices@[d].work_group == old(self).devices@[d].work_group
                &&& final(self).registry == old(self).registry
                &&& final(self).groups@ == old(self).groups@
                &&& final(self).license_pools@ == old(self).license_pools@
                &&& final(self).license_wallets@ == old(self).license_wallets@
                &&& final(self).specs@ == old(self).specs@
                &&& final(self).deployments@ == old(self).deployments@
                &&& final(self).replica_ledgers@ == old(self).replica_ledgers@
            },
    {
        match self.devices.get(&ctx.device) {
            Some(device) => {
                if device.device_authority != ctx.device_authority {
                    return Err(ErrorCode::Unauthorized);
                }
            },
            None => {
                return Err(ErrorCode::AccountNotFound);
            },
        }
        let mut device = self.devices.remove(&ctx.device).unwrap();
        device.ipv4 = ipv4;
        device.hostname = hostname;
        device.bump = bump;
        device.status = status;
        self.devices.insert(ctx.device, device);
        proof {
            assert(self.devices@ =~= old(self).devices@.insert(ctx.device, self.devices@[ctx.device]));
        }
        Ok(())
    }

    /// The outcome that `create_work_spec` owes for these inputs.
    pub open spec fn create_work_spec_result(&self, ctx: CreateWorkSpec, spec_name: Seq<char>) -> Result<
        Pubkey,
        ErrorCode,
    > {
        let g = ctx.work_group;
        let k = SeedKey::Spec(g, spec_name);
        if !self.groups@.contains_key(g) {
            Err(ErrorCode::AccountNotFound)
        } else if self.groups@[g].group_authority != ctx.group_authority {
            Err(ErrorCode::Unauthorized)
        } else if self.taken(k, self.specs@) {
            Err(ErrorCode::AccountAlreadyInUse)
        } else if self.exhausted_for(k) {
            Err(ErrorCode::IdentitiesExhausted)
        } else {
            Ok(self.identity_for(k))
        }
    }

    /// Defines a spec of a group, stamped with the time `now`, and appends
    /// it to the group's spec list.
    pub fn create_work_spec(
        &mut self,
        ctx: &CreateWorkSpec,
        spec_name: String,
        work_type: WorkType,
        url_or_contents: String,
        contents_sha256: String,
        metadata_url: String,
        mutable: bool,
        now: u64,
    ) -> (r: Result<Pubkey, ErrorCode>)
        requires
            old(self).wf(),
        ensures
            final(self).wf(),
            r == old(self).create_work_spec_result(*ctx, spec_name@),
            r is Err ==> *final(self) == *old(self),
            r is Ok ==> {
                let g = ctx.work_group;
                let s = r->Ok_0;
                &&& final(self).groups@ == old(self).groups@.insert(g, final(self).groups@[g])
                &&& final(self).groups@[g].specs@ == old(self).groups@[g].specs@.push(s)
                &&& final(self).groups@[g].devices@ == old(self).groups@[g].devices@
                &&& final(self).groups@[g].deployments@ == old(self).groups@[g].deployments@
                &&& Self::same_header(final(self).groups@[g], old(self).groups@[g])
                &&& !old(self).specs@.contains_key(s)
                &&& final(self).specs@ == old(self).specs@.insert(s, final(self).specs@[s])
                &&& final(self).specs@[s].name@ == spec_name@
                &&& final(self).specs@[s].work_type == work_type
                &&& final(self).specs@[s].created_at == now
                &&& final(self).specs@[s].modified_at == now
                &&& final(self).specs@[s].url_or_contents@ == url_or_contents@
                &&& final(self).specs@[s].contents_sha256@ == contents_sha256@
                &&& final(self).specs@[s].metadata_url@ == metadata_url@
                &&& final(self).specs@[s].mutable == mutable
                &&& final(self).derived_from(SeedKey::Spec(g, spec_name@), s)
                &&& Registry::extends(old(self).registry, final(self).registry, SeedKey::Spec(g, spec_name@))
                &&& final(self).devices@ == old(self).devices@
                &&& final(self).license_pools@ == old(self).license_pools@
                &&& final(self).license_wallets@ == old(self).license_wallets@
                &&& final(self).deployments@ == old(self).deployments@
                &&& final(self).replica_ledgers@ == old(self).replica_ledgers@
            },
    {
        let g = ctx.work_group;
        match self.groups.get(&g) {
            Some(grp) => {
                if grp.group_authority != ctx.group_authority {
                    return Err(ErrorCode::Unauthorized);
                }
            },
            None => {
                return Err(ErrorCode::AccountNotFound);
            },
        }
        let seed = Seed::Spec(g, spec_name.clone());
        match self.registry.find(&seed) {
            Some(id) => {
                if self.specs.contains_key(&id) {
                    return Err(ErrorCode::AccountAlreadyInUse);
                }
            },
            None => {},
        }
        let s = match self.registry.derive_id(seed) {
            Some(id) => id,
            None => {
                return Err(ErrorCode::IdentitiesExhausted);
            },
        };
        let spec = WorkSpec {
            name: spec_name,
            work_type,
            created_at: now,
            modified_at: now,
            url_or_contents,
            contents_sha256,
            metadata_url,
            mutable,
        };
        self.specs.insert(s, spec);
        let mut grp = self.groups.remove(&g).unwrap();
        grp.specs.push(s);
        self.groups.insert(g, grp);
        proof {
            assert(self.groups@ =~= old(self).groups@.insert(g, self.groups@[g]));
        }
        Ok(s)
    }

    /// The outcome that `close_work_spec` owes for these inputs.
    pub open spec fn close_work_spec_result(&self, ctx: CloseWorkSpec) -> Result<(), ErrorCode> {
        let g = ctx.work_group;
        if !self.groups@.contains_key(g) {
            Err(ErrorCode::AccountNotFound)
        } else if self.groups@[g].group_authority != ctx.group_authority {
            Err(ErrorCode::Unauthorized)
        } else if !self.specs@.contains_key(ctx.spec) {
            Err(ErrorCode::AccountNotFound)
        } else if !self.derived_from(SeedKey::Spec(g, self.specs@[ctx.spec].name@), ctx.spec) {
            Err(ErrorCode::AccountNotFound)
        } else if !self.groups@[g].specs@.contains(ctx.spec) {
            Err(ErrorCode::AccountNotFound)
        } else {
            Ok(())
        }
    }

    /// Deletes a spec of a group and removes it from the group's spec list;
    /// the entries after it move up by one.
    pub fn close_work_spec(&mut self, ctx: &CloseWorkSpec) -> (r: Result<(), ErrorCode>)
        requires
            old(self).wf(),
        ensures
            final(self).wf(),
            r == old(self).close_work_spec_result(*ctx),
            r is Err ==> *final(self) == *old(self),
            r is Ok ==> {
                let g = ctx.work_group;
                &&& final(self).groups@ == old(self).groups@.insert(g, final(self).groups@[g])
                &&& exists|i: int|
                    is_first_index(old(self).groups@[g].specs@, ctx.spec, i)
                        && final(self).groups@[g].specs@ == old(self).groups@[g].specs@.remove(i)
                &&& final(self).groups@[g].devices@ == old(self).groups@[g].devices@
                &&& final(self).groups@[g].deployments@ == old(self).groups@[g].deployments@
                &&& Self::same_header(final(self).groups@[g], old(self).groups@[g])
                &&& final(self).specs@ == old(self).specs@.remove(ctx.spec)
                &&& final(self).registry == old(self).registry
                &&& final(self).devices@ == old(self).devices@
                &&& final(self).license_pools@ == old(self).license_pools@
                &&& final(self).license_wallets@ == old(self).license_wallets@
                &&& final(self).deployments@ == old(self).deployments@
                &&& final(self).replica_ledgers@ == old(self).replica_ledgers@
            },
    {
        let g = ctx.work_group;
        let index = match self.groups.get(&g) {
            Some(grp) => {
                if grp.group_authority != ctx.group_authority {
                    return Err(ErrorCode::Unauthorized);
                }
                match self.specs.get(&ctx.spec) {
                    Some(spec) => {
                        let seed = Seed::Spec(g, spec.name.clone());
                        match self.registry.find(&seed) {
                            Some(id) => {
                                if id != ctx.spec {
                                    return Err(ErrorCode::AccountNotFound);
                                }
                            },
                            None => {
                                return Err(ErrorCode::AccountNotFound);
                            },
                        }
                    },
                    None => {
                        return Err(ErrorCode::AccountNotFound);
                    },
                }
                match position_of(&grp.specs, ctx.spec) {
                    Some(i) => i,
                    None => {
                        return Err(ErrorCode::AccountNotFound);
                    },
                }
            },
            None => {
                return Err(ErrorCode::AccountNotFound);
            },
        };
        let mut grp = self.groups.remove(&g).unwrap();
        grp.specs.remove(index);
        self.groups.insert(g, grp);
        self.specs.remove(&ctx.spec);
        proof {
            assert(self.groups@ =~= old(self).groups@.insert(g, self.groups@[g]));
            assert(is_first_index(old(self).groups@[g].specs@, ctx.spec, index as int));
        }
        Ok(())
    }

    /// The outcome that `create_deployment` owes for these inputs.
    pub open spec fn create_deployment_result(&self, ctx: CreateDeployment, name: Seq<char>) -> Result<
        Pubkey,
        ErrorCode,
    > {
        let g = ctx.work_group;
        let k = SeedKey::Deployment(g, name);
        if !self.groups@.contains_key(g) {
            Err(ErrorCode::AccountNotFound)
        } else if self.groups@[g].group_authority != ctx.group_authority {
            Err(ErrorCode::Unauthorized)
        } else if !self.specs@.contains_key(ctx.spec) {
            Err(ErrorCode::AccountNotFound)
        } else if self.taken(k, self.replica_ledgers@) {
            Err(ErrorCode::AccountAlreadyInUse)
        } else if self.exhausted_for(k) {
            Err(ErrorCode::IdentitiesExhausted)
        } else {
            Ok(self.identity_for(k))
        }
    }

    /// Instantiates a spec as a deployment of a group, minting `replicas`
    /// replica units into the deployment's pool.
    pub fn create_deployment(&mut self, ctx: &CreateDeployment, name: String, replicas: u8) -> (r:
        Result<Pubkey, ErrorCode>)
        requires
            old(self).wf(),
        ensures
            final(self).wf(),
            r == old(self).create_deployment_result(*ctx, name@),
            r is Err ==> *final(self) == *old(self),
            r is Ok ==> {
                let g = ctx.work_group;
                let d = r->Ok_0;
                &&& final(self).groups@ == old(self).groups@.insert(g, final(self).groups@[g])
                &&& final(self).groups@[g].deployments@ == old(self).groups@[g].deployments@.push(d)
                &&& final(self).groups@[g].devices@ == old(self).groups@[g].devices@
                &&& final(self).groups@[g].specs@ == old(self).groups@[g].specs@
                &&& Self::same_header(final(self).groups@[g], old(self).groups@[g])
                &&& !old(self).deployments@.contains_key(d)
                &&& !old(self).replica_ledgers@.contains_key(d)
                &&& final(self).deployments@ == old(self).deployments@.insert(
                    d,
                    final(self).deployments@[d],
                )
                &&& final(self).deployments@[d].spec == ctx.spec
                &&& final(self).deployments@[d].name@ == name@
                &&& final(self).deployments@[d].args@.len() == 0
                &&& final(self).deployments@[d].replicas == replicas
                &&& final(self).replica_ledgers@ == old(self).replica_ledgers@.insert(
                    d,
                    final(self).replica_ledgers@[d],
                )
                &&& final(self).replica_ledgers@[d].minted == replicas
                &&& final(self).replica_ledgers@[d].pool == replicas
                &&& final(self).replica_ledgers@[d].holdings@.len() == 0
                &&& final(self).derived_from(SeedKey::Deployment(g, name@), d)
                &&& Registry::extends(old(self).registry, final(self).registry, SeedKey::Deployment(g, name@))
                &&& final(self).devices@ == old(self).devices@
                &&& final(self).specs@ == old(self).specs@
                &&& final(self).license_pools@ == old(self).license_pools@
                &&& final(self).license_wallets@ == old(self).license_wallets@
            },
    {
        let g = ctx.work_group;
        match self.groups.get(&g) {
            Some(grp) => {
                if grp.group_authority != ctx.group_authority {
                    return Err(ErrorCode::Unauthorized);
                }
            },
            None => {
                return Err(ErrorCode::AccountNotFound);
            },
        }
        if !self.specs.contains_key(&ctx.spec) {
            return Err(ErrorCode::AccountNotFound);
        }
        let seed = Seed::Deployment(g, name.clone());
        match self.registry.find(&seed) {
            Some(id) => {
                if self.replica_ledgers.contains_key(&id) {
                    return Err(ErrorCode::AccountAlreadyInUse);
                }
            },
            None => {},
        }
        let d = match self.registry.derive_id(seed) {
            Some(id) => id,
            None => {
                return Err(ErrorCode::IdentitiesExhausted);
            },
        };
        let deployment = Deployment { spec: ctx.spec, name, args: Vec::new(), replicas };
        self.deployments.insert(d, deployment);
        self.replica_ledgers.insert(d, ReplicaLedger::mint(replicas as u64));
        let mut grp = self.groups.remove(&g).unwrap();
        grp.deployments.push(d);
        self.groups.insert(g, grp);
        proof {
            assert(self.groups@ =~= old(self).groups@.insert(g, self.groups@[g]));
        }
        Ok(d)
    }

    /// The outcome that `close_deployment` owes for these inputs.
    pub open spec fn close_deployment_result(&self, ctx: CloseDeployment) -> Result<(), ErrorCode> {
        let g = ctx.work_group;
        let d = ctx.deployment;
        if !self.groups@.contains_key(g) {
            Err(ErrorCode::AccountNotFound)
        } else if self.groups@[g].group_authority != ctx.group_authority {
            Err(ErrorCode::Unauthorized)
        } else if !self.deployments@.contains_key(d) {
            Err(ErrorCode::AccountNotFound)
        } else if !self.derived_from(SeedKey::Deployment(g, self.deployments@[d].name@), d) {
            Err(ErrorCode::AccountNotFound)
        } else if !self.groups@[g].deployments@.contains(d) {
            Err(ErrorCode::AccountNotFound)
        } else {
            Ok(())
        }
    }

    /// Closes a deployment: it leaves the group's list, its unscheduled pool
    /// is burned, and its record is deleted. Units already held by devices
    /// stay where they are.
    pub fn close_deployment(&mut self, ctx: &CloseDeployment) -> (r: Result<(), ErrorCode>)
        requires
            old(self).wf(),
        ensures
            final(self).wf(),
            r == old(self).close_deployment_result(*ctx),
            r is Err ==> *final(self) == *old(self),
            r is Ok ==> {
                let g = ctx.work_group;
                let d = ctx.deployment;
                &&& final(self).groups@ == old(self).groups@.insert(g, final(self).groups@[g])
                &&& exists|i: int|
                    is_first_index(old(self).groups@[g].deployments@, d, i)
                        && final(self).groups@[g].deployments@ == old(
                        self,
                    ).groups@[g].deployments@.remove(i)
                &&& final(self).groups@[g].devices@ == old(self).groups@[g].devices@
                &&& final(self).groups@[g].specs@ == old(self).groups@[g].specs@
                &&& Self::same_header(final(self).groups@[g], old(self).groups@[g])
                &&& final(self).deployments@ == old(self).deployments@.remove(d)
                &&& final(self).replica_ledgers@ == old(self).replica_ledgers@.insert(
                    d,
                    final(self).replica_ledgers@[d],
                )
                &&& final(self).replica_ledgers@[d].pool == 0
                &&& final(self).replica_ledgers@[d].minted == old(self).replica_ledgers@[d].minted
                    - old(self).replica_ledgers@[d].pool
                &&& final(self).replica_ledgers@[d].holdings@ == old(
                    self,
                ).replica_ledgers@[d].holdings@
                &&& final(self).registry == old(self).registry
                &&& final(self).devices@ == old(self).devices@
                &&& final(self).specs@ == old(self).specs@
                &&& final(self).license_pools@ == old(self).license_pools@
                &&& final(self).license_wallets@ == old(self).license_wallets@
            },
    {
        let g = ctx.work_group;
        let d = ctx.deployment;
        let index = match self.groups.get(&g) {
            Some(grp) => {
                if grp.group_authority != ctx.group_authority {
                    return Err(ErrorCode::Unauthorized);
                }
                match self.deployments.get(&d) {
                    Some(deployment) => {
                        let seed = Seed::Deployment(g, deployment.name.clone());
                        match self.registry.find(&seed) {
                            Some(id) => {
                                if id != d {
                                    return Err(ErrorCode::AccountNotFound);
                                }
                            },
                            None => {
                                return Err(ErrorCode::AccountNotFound);
                            },
                        }
                    },
                    None => {
                        return Err(ErrorCode::AccountNotFound);
                    },
                }
                match position_of(&grp.deployments, d) {
                    Some(i) => i,
                    None => {
                        return Err(ErrorCode::AccountNotFound);
                    },
                }
            },
            None => {
                return Err(ErrorCode::AccountNotFound);
            },
        };
        let mut grp = self.groups.remove(&g).unwrap();
        grp.deployments.remove(index);
        self.groups.insert(g, grp);
        self.deployments.remove(&d);
        let mut ledger = self.replica_ledgers.remove(&d).unwrap();
        ledger.burn_pool();
        self.replica_ledgers.insert(d, ledger);
        proof {
            assert(self.groups@ =~= old(self).groups@.insert(g, self.groups@[g]));
            assert(self.replica_ledgers@ =~= old(self).replica_ledgers@.insert(
                d,
                self.replica_ledgers@[d],
            ));
            assert(is_first_index(old(self).groups@[g].deployments@, d, index as int));
        }
        Ok(())
    }

    /// The outcome that `schedule` owes for these inputs.
    pub open spec fn schedule_result(&self, ctx: Schedule, replicas: u8) -> Result<(), ErrorCode> {
        let g = ctx.work_group;
        let d = ctx.deployment;
        if !self.groups@.contains_key(g) {
            Err(ErrorCode::AccountNotFound)
        } else if self.groups@[g].group_authority != ctx.group_authority {
            Err(ErrorCode::Unauthorized)
        } else if !self.deployments@.contains_key(d) {
            Err(ErrorCode::AccountNotFound)
        } else if !self.derived_from(SeedKey::Deployment(g, self.deployments@[d].name@), d) {
            Err(ErrorCode::AccountNotFound)
        } else if !self.devices@.contains_key(ctx.device) {
            Err(ErrorCode::AccountNotFound)
        } else if replicas > self.replica_ledgers@[d].pool {
            Err(ErrorCode::InsuffientReplicaTokens)
        } else {
            Ok(())
        }
    }

    /// Replica units of deployment `d` held by the device of `device_authority`.
    pub open spec fn device_pool(&self, d: Pubkey, device_authority: Pubkey) -> int {
        held_by(self.replica_ledgers@[d].holdings@, device_authority)
    }

    /// Reclaim allowance over the device pool of `device_authority` for deployment `d`.
    pub open spec fn reclaim_allowance(&self, d: Pubkey, device_authority: Pubkey) -> int {
        allowance_of(self.replica_ledgers@[d].holdings@, device_authority)
    }

    /// What a successful scheduling did: `n` units moved from the
    /// deployment's pool to the device's pool, and the group's allowance over
    /// that device pool grew by `n`.
    pub open spec fn schedule_effect(pre: Worknet, post: Worknet, ctx: Schedule, n: int) -> bool {
        let d = ctx.deployment;
        let a = pre.devices@[ctx.device].device_authority;
        &&& post.replica_ledgers@ == pre.replica_ledgers@.insert(d, post.replica_ledgers@[d])
        &&& post.replica_ledgers@[d].minted == pre.replica_ledgers@[d].minted
        &&& post.replica_ledgers@[d].pool == pre.replica_ledgers@[d].pool - n
        &&& post.device_pool(d, a) == pre.device_pool(d, a) + n
        &&& post.reclaim_allowance(d, a) == pre.reclaim_allowance(d, a) + n
        &&& forall|b: Pubkey| b != a ==> post.device_pool(d, b) == pre.device_pool(d, b)
        &&& forall|i: int|
            0 <= i < post.replica_ledgers@[d].holdings@.len()
                && #[trigger] post.replica_ledgers@[d].holdings@[i].device_authority == a
                ==> post.replica_ledgers@[d].holdings@[i].delegate == ctx.work_group
        &&& post.registry == pre.registry
        &&& post.groups@ == pre.groups@
        &&& post.devices@ == pre.devices@
        &&& post.specs@ == pre.specs@
        &&& post.deployments@ == pre.deployments@
        &&& post.license_pools@ == pre.license_pools@
        &&& post.license_wallets@ == pre.license_wallets@
    }

    /// Assigns `replicas` units of a deployment to a device, and gives the
    /// group a standing allowance to reclaim them.
    pub fn schedule(&mut self, ctx: &Schedule, replicas: u8) -> (r: Result<(), ErrorCode>)
        requires
            old(self).wf(),
        ensures
            final(self).wf(),
            r == old(self).schedule_result(*ctx, replicas),
            r is Err ==> *final(self) == *old(self),
            r is Ok ==> Self::schedule_effect(*old(self), *final(self), *ctx, replicas as int),
    {
        let g = ctx.work_group;
        let d = ctx.deployment;
        match self.groups.get(&g) {
            Some(grp) => {
                if grp.group_authority != ctx.group_authority {
                    return Err(ErrorCode::Unauthorized);
                }
            },
            None => {
                return Err(ErrorCode::AccountNotFound);
            },
        }
        match self.deployments.get(&d) {
            Some(deployment) => {
                let seed = Seed::Deployment(g, deployment.name.clone());
                match self.registry.find(&seed) {
                    Some(id) => {
                        if id != d {
                            return Err(ErrorCode::AccountNotFound);
                        }
                    },
                    None => {
                        return Err(ErrorCode::AccountNotFound);
                    },
                }
            },
            None => {
                return Err(ErrorCode::AccountNotFound);
            },
        }
        let device_authority = match self.devices.get(&ctx.device) {
            Some(device) => device.device_authority,
            None => {
                return Err(ErrorCode::AccountNotFound);
            },
        };
        let available = match self.replica_ledgers.get(&d) {
            Some(ledger) => ledger.pool,
            None => {
                return Err(ErrorCode::AccountNotFound);
            },
        };
        if replicas as u64 > available {
            return Err(ErrorCode::InsuffientReplicaTokens);
        }
        let mut ledger = self.replica_ledgers.remove(&d).unwrap();
        let moved = ledger.schedule(device_authority, g, replicas as u64);
        self.replica_ledgers.insert(d, ledger);
        proof {
            assert(moved is Ok);
            assert(self.replica_ledgers@ =~= old(self).replica_ledgers@.insert(
                d,
                self.replica_ledgers@[d],
            ));
        }
        Ok(())
    }
}

} // verus!
