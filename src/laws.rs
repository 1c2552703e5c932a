use vstd::prelude::*;

use crate::accounts::{CloseDevice, CloseWorkGroup, RegisterDevice, Schedule};
use crate::ledger::held_total;
use crate::registry::SeedKey;
use crate::store::Worknet;
use crate::types::{ErrorCode, Pubkey, SYSTEM_PROGRAM_ID};

verus! {

/// A registration that succeeds leaves the group within ten device slots
/// per license unit, and once the slots reach that bound every further
/// registration in the group is refused.
pub proof fn law_register_device_respects_quota(
    s: Worknet,
    ctx: RegisterDevice,
    device_authority: Pubkey,
)
    requires
        s.wf(),
        s.groups@.contains_key(ctx.work_group),
    ensures
        s.register_device_result(ctx, device_authority) is Ok ==> s.groups@[ctx.work_group].devices@.len()
            + 1 <= s.license_balance(ctx.work_group) * 10,
        s.groups@[ctx.work_group].devices@.len() >= s.license_balance(ctx.work_group) * 10
            ==> s.register_device_result(ctx, device_authority) is Err,
        s.groups@[ctx.work_group].group_authority == ctx.group_authority && !s.taken(
            SeedKey::Device(device_authority),
            s.devices@,
        ) && s.groups@[ctx.work_group].devices@.len() >= s.license_balance(ctx.work_group) * 10
            ==> s.register_device_result(ctx, device_authority) == Err::<Pubkey, ErrorCode>(
            ErrorCode::InsufficentLicenseTokens,
        ),
{
}

/// Without `force`, a group's teardown is refused exactly when it still lists
/// a spec, a live device or a deployment; with `force` it always goes through.
pub proof fn law_close_work_group_orphan_check(s: Worknet, ctx: CloseWorkGroup)
    requires
        s.wf(),
        s.groups@.contains_key(ctx.group),
        s.groups@[ctx.group].group_authority == ctx.group_authority,
        s.wallet_balance(ctx.group_authority) + s.license_balance(ctx.group) <= u64::MAX,
    ensures
        s.close_work_group_result(ctx, false) is Err <==> (s.groups@[ctx.group].specs@.len() > 0
            || s.groups@[ctx.group].has_live_device() || s.groups@[ctx.group].deployments@.len()
            > 0),
        s.close_work_group_result(ctx, true) is Ok,
{
}

/// Every live deployment's replica units are all accounted for: its pool and
/// the pools of all devices add up to the replicas it minted.
pub proof fn law_replica_supply_conserved(s: Worknet, d: Pubkey)
    requires
        s.wf(),
        s.deployments@.contains_key(d),
    ensures
        s.replica_ledgers@[d].pool + held_total(s.replica_ledgers@[d].holdings@)
            == s.deployments@[d].replicas,
{
}

/// Scheduling `n` units is refused for want of replica units exactly when
/// `n` exceeds the deployment's pool; when it succeeds the pool shrinks by
/// `n` while the device's pool and the group's reclaim allowance over it
/// grow by `n`, and the deployment's supply stays whole.
pub proof fn law_schedule_moves_exactly(pre: Worknet, post: Worknet, ctx: Schedule, n: u8)
    requires
        pre.wf(),
        post.wf(),
        pre.groups@.contains_key(ctx.work_group),
        pre.groups@[ctx.work_group].group_authority == ctx.group_authority,
        pre.deployments@.contains_key(ctx.deployment),
        pre.derived_from(
            SeedKey::Deployment(ctx.work_group, pre.deployments@[ctx.deployment].name@),
            ctx.deployment,
        ),
        pre.devices@.contains_key(ctx.device),
        pre.schedule_result(ctx, n) is Ok ==> Worknet::schedule_effect(pre, post, ctx, n as int),
    ensures
        pre.schedule_result(ctx, n) == Err::<(), ErrorCode>(ErrorCode::InsuffientReplicaTokens)
            <==> n > pre.replica_ledgers@[ctx.deployment].pool,
        pre.schedule_result(ctx, n) is Ok ==> {
            let d = ctx.deployment;
            let a = pre.devices@[ctx.device].device_authority;
            &&& post.replica_ledgers@[d].pool == pre.replica_ledgers@[d].pool - n
            &&& post.device_pool(d, a) == pre.device_pool(d, a) + n
            &&& post.reclaim_allowance(d, a) == pre.reclaim_allowance(d, a) + n
            &&& post.replica_ledgers@[d].pool + held_total(post.replica_ledgers@[d].holdings@)
                == pre.deployments@[d].replicas
        },
{
}

/// Closing a device leaves the empty sentinel in its former slot, keeps the
/// list's length and every other slot, and a second closure of the same
/// device changes nothing.
pub proof fn law_close_device_keeps_positions(pre: Worknet, post: Worknet, ctx: CloseDevice)
    requires
        pre.wf(),
        post.wf(),
        pre.close_device_result(ctx) is Ok,
        Worknet::close_device_effect(pre, post, ctx),
    ensures
        post.groups@[ctx.work_group].devices@.len() == pre.groups@[ctx.work_group].devices@.len(),
        exists|i: int|
            0 <= i < pre.groups@[ctx.work_group].devices@.len()
                && pre.groups@[ctx.work_group].devices@[i] == ctx.device
                && post.groups@[ctx.work_group].devices@[i] == SYSTEM_PROGRAM_ID && forall|j: int|
                0 <= j < pre.groups@[ctx.work_group].devices@.len() && j != i
                    ==> post.groups@[ctx.work_group].devices@[j]
                    == pre.groups@[ctx.work_group].devices@[j],
        post.close_device_result(ctx) is Err,
{
    let s = pre.groups@[ctx.work_group].devices@;
    let i = choose|i: int|
        crate::types::is_first_index(s, ctx.device, i) && post.groups@[ctx.work_group].devices@
            == s.update(i, SYSTEM_PROGRAM_ID);
    assert(post.groups@[ctx.work_group].devices@[i] == SYSTEM_PROGRAM_ID);
}

/// A group created with deposit `deposit` and closed at once without force
/// hands exactly `deposit` back to its authority's wallet, which ends where
/// it started, and the group no longer resolves.
pub proof fn law_group_round_trip(
    s0: Worknet,
    s1: Worknet,
    s2: Worknet,
    group_authority: Pubkey,
    name: Seq<char>,
    identifier: Seq<char>,
    signal_server_url: Seq<char>,
    deposit: u64,
    g: Pubkey,
)
    requires
        s0.wf(),
        s1.wf(),
        s0.create_work_group_result(group_authority, identifier, deposit) == Ok::<
            Pubkey,
            ErrorCode,
        >(g),
        Worknet::create_work_group_effect(
            s0,
            s1,
            group_authority,
            name,
            identifier,
            signal_server_url,
            deposit,
            g,
        ),
        Worknet::close_work_group_effect(s1, s2, CloseWorkGroup { group_authority, group: g }),
    ensures
        s1.close_work_group_result(CloseWorkGroup { group_authority, group: g }, false) == Ok::<
            (),
            ErrorCode,
        >(()),
        s2.wallet_balance(group_authority) == s1.wallet_balance(group_authority) + deposit,
        s2.wallet_balance(group_authority) == s0.wallet_balance(group_authority),
        !s2.groups@.contains_key(g),
        !s2.license_pools@.contains_key(g),
{
    let w1 = s1.groups@[g];
    assert(!w1.has_live_device());
    assert(s1.license_balance(g) == deposit);
    assert(s1.wallet_balance(group_authority) == s0.wallet_balance(group_authority) - deposit);
}

} // verus!
