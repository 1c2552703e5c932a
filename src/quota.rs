use vstd::prelude::*;

verus! {

/// The quota rule: one more device fits when the new count stays within
/// ten slots per unit of license balance.
pub open spec fn quota_allows(device_count: int, license_balance: int) -> bool {
    device_count + 1 <= license_balance * 10
}

/// Decides whether a group holding `license_balance` license units and
/// currently listing `device_count` device slots may register one more device.
pub fn can_register_device(device_count: u64, license_balance: u64) -> (r: bool)
    ensures
        r == quota_allows(device_count as int, license_balance as int),
{
    (device_count as u128) + 1 <= (license_balance as u128) * 10
}

} // verus!
