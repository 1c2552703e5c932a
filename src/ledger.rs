use vstd::prelude::*;

use crate::types::{ErrorCode, Pubkey};

verus! {

/// One device's balance of a deployment's replica units, together with the
/// standing allowance that lets `delegate` reclaim them.
#[derive(Clone, Copy, PartialEq, Eq, Structural, Debug)]
pub struct Holding {
    pub device_authority: Pubkey,
    pub amount: u64,
    pub delegate: Pubkey,
    pub delegated_amount: u64,
}

/// The replica-token ledger of one deployment: the supply that was minted,
/// the unscheduled pool, and the per-device holdings.
#[derive(Debug)]
pub struct ReplicaLedger {
    pub minted: u64,
    pub pool: u64,
    pub holdings: Vec<Holding>,
}

/// What one holding adds to a sum: its amount (or its allowance), counted for
/// every device when `who` is `None` and for one device otherwise.
pub open spec fn contribution(h: Holding, who: Option<Pubkey>, allowance: bool) -> int {
    let v = if allowance {
        h.delegated_amount as int
    } else {
        h.amount as int
    };
    match who {
        None => v,
        Some(a) => if h.device_authority == a {
            v
        } else {
            0
        },
    }
}

/// Sum of the contributions of a sequence of holdings.
pub open spec fn total(s: Seq<Holding>, who: Option<Pubkey>, allowance: bool) -> int
    decreases s.len(),
{
    if s.len() == 0 {
        0
    } else {
        total(s.drop_last(), who, allowance) + contribution(s.last(), who, allowance)
    }
}

/// Replica units held by all devices together.
pub open spec fn held_total(s: Seq<Holding>) -> int {
    total(s, None, false)
}

/// Replica units held by the device with the given authority.
pub open spec fn held_by(s: Seq<Holding>, device_authority: Pubkey) -> int {
    total(s, Some(device_authority), false)
}

/// Reclaim allowance granted over the holding of the given device.
pub open spec fn allowance_of(s: Seq<Holding>, device_authority: Pubkey) -> int {
    total(s, Some(device_authority), true)
}

pub proof fn lemma_total_nonneg(s: Seq<Holding>, who: Option<Pubkey>, allowance: bool)
    ensures
        total(s, who, allowance) >= 0,
    decreases s.len(),
{
    if s.len() > 0 {
        lemma_total_nonneg(s.drop_last(), who, allowance);
    }
}

pub proof fn lemma_total_push(s: Seq<Holding>, h: Holding, who: Option<Pubkey>, allowance: bool)
    ensures
        total(s.push(h), who, allowance) == total(s, who, allowance) + contribution(
            h,
            who,
            allowance,
        ),
{
    assert(s.push(h).drop_last() =~= s);
}

pub proof fn lemma_total_update(
    s: Seq<Holding>,
    i: int,
    h: Holding,
    who: Option<Pubkey>,
    allowance: bool,
)
    requires
        0 <= i < s.len(),
    ensures
        total(s.update(i, h), who, allowance) == total(s, who, allowance) - contribution(
            s[i],
            who,
            allowance,
        ) + contribution(h, who, allowance),
    decreases s.len(),
{
    if i == s.len() - 1 {
        assert(s.update(i, h).drop_last() =~= s.drop_last());
    } else {
        lemma_total_update(s.drop_last(), i, h, who, allowance);
        assert(s.update(i, h).drop_last() =~= s.drop_last().update(i, h));
    }
}

pub proof fn lemma_member_bounded(s: Seq<Holding>, i: int, who: Option<Pubkey>, allowance: bool)
    requires
        0 <= i < s.len(),
    ensures
        contribution(s[i], who, allowance) <= total(s, who, allowance),
    decreases s.len(),
{
    lemma_total_nonneg(s.drop_last(), who, allowance);
    if i < s.len() - 1 {
        lemma_member_bounded(s.drop_last(), i, who, allowance);
    }
}

impl ReplicaLedger {
    /// The minted supply is split exactly between the pool and the devices,
    /// and no allowance exceeds the holding it is granted over.
    pub open spec fn wf(&self) -> bool {
        &&& self.pool + held_total(self.holdings@) == self.minted
        &&& forall|i: int|
            0 <= i < self.holdings@.len() ==> #[trigger] self.holdings@[i].delegated_amount
                <= self.holdings@[i].amount
        &&& forall|i: int, j: int|
            0 <= i < j < self.holdings@.len() ==> #[trigger] self.holdings@[i].device_authority
                != #[trigger] self.holdings@[j].device_authority
    }

    /// Mints `replicas` units into a fresh pool.
    pub fn mint(replicas: u64) -> (r: Self)
        ensures
            r.wf(),
            r.minted == replicas,
            r.pool == replicas,
            r.holdings@.len() == 0,
    {
        ReplicaLedger { minted: replicas, pool: replicas, holdings: Vec::new() }
    }

    /// Moves `n` units from the pool to the holding of `device_authority` and
    /// raises the allowance of `delegate` over that holding by `n`.
    pub fn schedule(&mut self, device_authority: Pubkey, delegate: Pubkey, n: u64) -> (r: Result<
        (),
        ErrorCode,
    >)
        requires
            old(self).wf(),
        ensures
            final(self).wf(),
            final(self).minted == old(self).minted,
            r is Err <==> n > old(self).pool,
            r is Err ==> r == Err::<(), ErrorCode>(ErrorCode::InsuffientReplicaTokens),
            r is Err ==> final(self).pool == old(self).pool,
            r is Err ==> final(self).holdings@ == old(self).holdings@,
            r is Ok ==> {
                &&& final(self).pool == old(self).pool - n
                &&& held_by(final(self).holdings@, device_authority) == held_by(
                    old(self).holdings@,
                    device_authority,
                ) + n
                &&& allowance_of(final(self).holdings@, device_authority) == allowance_of(
                    old(self).holdings@,
                    device_authority,
                ) + n
                &&& held_total(final(self).holdings@) == held_total(old(self).holdings@) + n
                &&& forall|a: Pubkey|
                    a != device_authority ==> held_by(final(self).holdings@, a) == held_by(
                        old(self).holdings@,
                        a,
                    )
                &&& forall|i: int|
                    0 <= i < final(self).holdings@.len()
                        && #[trigger] final(self).holdings@[i].device_authority == device_authority
                        ==> final(self).holdings@[i].delegate == delegate
            },
    {
        if n > self.pool {
            return Err(ErrorCode::InsuffientReplicaTokens);
        }
        let ghost s = self.holdings@;
        let mut i: usize = 0;
        let len = self.holdings.len();
        while i < len
            invariant
                len == self.holdings@.len(),
                self.holdings@ == s,
                0 <= i <= len,
                forall|j: int| 0 <= j < i ==> #[trigger] s[j].device_authority != device_authority,
            ensures
                0 <= i <= len,
                i < len ==> s[i as int].device_authority == device_authority,
                forall|j: int| 0 <= j < i ==> #[trigger] s[j].device_authority != device_authority,
            decreases len - i,
        {
            if self.holdings[i].device_authority == device_authority {
                break;
            }
            i = i + 1;
        }
        proof {
            lemma_total_nonneg(s, None, false);
        }
        if i < len {
            let old_h = self.holdings[i];
            proof {
                lemma_member_bounded(s, i as int, None, false);
            }
            let h = Holding {
                device_authority,
                amount: old_h.amount + n,
                delegate,
                delegated_amount: old_h.delegated_amount + n,
            };
            self.holdings.set(i, h);
            proof {
                assert(self.holdings@ == s.update(i as int, h));
                lemma_total_update(s, i as int, h, None, false);
                lemma_total_update(s, i as int, h, Some(device_authority), false);
                lemma_total_update(s, i as int, h, Some(device_authority), true);
                assert forall|a: Pubkey| a != device_authority implies held_by(self.holdings@, a)
                    == held_by(s, a) by {
                    lemma_total_update(s, i as int, h, Some(a), false);
                }
                assert forall|j: int|
                    0 <= j < self.holdings@.len() && #[trigger] self.holdings@[j].device_authority
                        == device_authority implies self.holdings@[j].delegate == delegate by {
                    if j < i {
                        assert(s[j].device_authority != device_authority);
                    } else if j > i {
                        assert(s[i as int].device_authority != s[j].device_authority);
                    }
                }
            }
        } else {
            let h = Holding { device_authority, amount: n, delegate, delegated_amount: n };
            self.holdings.push(h);
            proof {
                assert(self.holdings@ == s.push(h));
                lemma_total_push(s, h, None, false);
                lemma_total_push(s, h, Some(device_authority), false);
                lemma_total_push(s, h, Some(device_authority), true);
                assert forall|a: Pubkey| a != device_authority implies held_by(self.holdings@, a)
                    == held_by(s, a) by {
                    lemma_total_push(s, h, Some(a), false);
                }
            }
        }
        self.pool = self.pool - n;
        Ok(())
    }

    /// Burns the whole unscheduled pool; device holdings are left as they are.
    pub fn burn_pool(&mut self)
        requires
            old(self).wf(),
        ensures
            final(self).wf(),
            final(self).pool == 0,
            final(self).minted == old(self).minted - old(self).pool,
            final(self).holdings@ == old(self).holdings@,
    {
        proof {
            lemma_total_nonneg(self.holdings@, None, false);
        }
        self.minted = self.minted - self.pool;
        self.pool = 0;
    }
}

} // verus!
