use vstd::prelude::*;

use crate::types::Pubkey;

verus! {

/// The derivation path of a record's identity: a discriminator and the
/// parent identity and name that the record is keyed by.
#[derive(Debug)]
pub enum Seed {
    WorkGroup(String),
    Spec(Pubkey, String),
    Deployment(Pubkey, String),
    Device(Pubkey),
}

/// The mathematical value of a seed.
pub enum SeedKey {
    WorkGroup(Seq<char>),
    Spec(Pubkey, Seq<char>),
    Deployment(Pubkey, Seq<char>),
    Device(Pubkey),
}

impl View for Seed {
    type V = SeedKey;

    open spec fn view(&self) -> SeedKey {
        match self {
            Seed::WorkGroup(identifier) => SeedKey::WorkGroup(identifier@),
            Seed::Spec(group, name) => SeedKey::Spec(*group, name@),
            Seed::Deployment(group, name) => SeedKey::Deployment(*group, name@),
            Seed::Device(authority) => SeedKey::Device(*authority),
        }
    }
}

/// Decides whether two seeds name the same derivation path.
pub fn same_seed(a: &Seed, b: &Seed) -> (r: bool)
    ensures
        r == (a@ == b@),
{
    match (a, b) {
        (Seed::WorkGroup(x), Seed::WorkGroup(y)) => *x == *y,
        (Seed::Spec(g, x), Seed::Spec(h, y)) => *g == *h && *x == *y,
        (Seed::Deployment(g, x), Seed::Deployment(h, y)) => *g == *h && *x == *y,
        (Seed::Device(x), Seed::Device(y)) => *x == *y,
        _ => false,
    }
}

/// A content-addressed table of identities: the same seed always resolves
/// to the same identity, and each new seed gets an identity never given out
/// before. Identities start at one; zero is never given out.
#[derive(Debug)]
pub struct Registry {
    pub entries: Vec<(Seed, Pubkey)>,
    pub next: u64,
}

impl Registry {
    pub open spec fn wf(&self) -> bool {
        &&& self.next >= 1
        &&& forall|i: int|
            0 <= i < self.entries@.len() ==> 1 <= #[trigger] self.entries@[i].1 < self.next
        &&& forall|i: int, j: int|
            0 <= i < j < self.entries@.len() ==> #[trigger] self.entries@[i].0@
                != #[trigger] self.entries@[j].0@
    }

    /// Whether a seed has been resolved before.
    pub open spec fn knows(&self, k: SeedKey) -> bool {
        exists|i: int| 0 <= i < self.entries@.len() && #[trigger] self.entries@[i].0@ == k
    }

    /// The identity a known seed resolves to.
    pub open spec fn resolve(&self, k: SeedKey) -> Pubkey {
        let i = choose|i: int| 0 <= i < self.entries@.len() && #[trigger] self.entries@[i].0@ == k;
        self.entries@[i].1
    }

    /// `post` is `pre` with at most seed `k` added: every other seed keeps
    /// what it resolved to, and at most one identity was given out.
    pub open spec fn extends(pre: Registry, post: Registry, k: SeedKey) -> bool {
        &&& post.next <= pre.next + 1
        &&& forall|k2: SeedKey|
            k2 != k ==> (post.knows(k2) == pre.knows(k2)) && (pre.knows(k2) ==> post.resolve(k2)
                == pre.resolve(k2))
    }

    /// Whether an identity has been given out.
    pub open spec fn issued(&self, id: Pubkey) -> bool {
        1 <= id < self.next
    }

    pub fn new() -> (r: Self)
        ensures
            r.wf(),
            r.next == 1,
            forall|k: SeedKey| !r.knows(k),
            forall|id: Pubkey| !r.issued(id),
    {
        Registry { entries: Vec::new(), next: 1 }
    }

    /// Finds the identity of a seed; `None` if none was given out yet.
    pub fn find(&self, seed: &Seed) -> (r: Option<Pubkey>)
        requires
            self.wf(),
        ensures
            r is None <==> !self.knows(seed@),
            r is Some ==> r == Some(self.resolve(seed@)),
    {
        let mut i: usize = 0;
        while i < self.entries.len()
            invariant
                self.wf(),
                0 <= i <= self.entries@.len(),
                forall|j: int| 0 <= j < i ==> #[trigger] self.entries@[j].0@ != seed@,
            decreases self.entries@.len() - i,
        {
            if same_seed(&self.entries[i].0, seed) {
                let ghost k = seed@;
                proof {
                    let c = choose|j: int|
                        0 <= j < self.entries@.len() && #[trigger] self.entries@[j].0@ == k;
                    if c != i as int {
                        if c < i {
                        } else {
                            assert(self.entries@[i as int].0@ != self.entries@[c].0@);
                        }
                    }
                }
                return Some(self.entries[i].1);
            }
            i = i + 1;
        }
        None
    }

    /// Resolves a seed, giving it a fresh identity if it has none yet.
    /// `None` only when a new identity is needed and none is left.
    pub fn derive_id(&mut self, seed: Seed) -> (r: Option<Pubkey>)
        requires
            old(self).wf(),
        ensures
            final(self).wf(),
            old(self).knows(seed@) ==> r == Some(old(self).resolve(seed@)) && *final(self)
                == *old(self),
            !old(self).knows(seed@) && old(self).next < u64::MAX ==> {
                &&& r == Some(old(self).next)
                &&& final(self).next == old(self).next + 1
                &&& !old(self).issued(old(self).next)
                &&& final(self).knows(seed@)
                &&& final(self).resolve(seed@) == old(self).next
            },
            !old(self).knows(seed@) && old(self).next == u64::MAX ==> r is None && *final(self)
                == *old(self),
            forall|k: SeedKey|
                k != seed@ ==> (final(self).knows(k) == old(self).knows(k)) && (old(self).knows(
                    k,
                ) ==> final(self).resolve(k) == old(self).resolve(k)),
            forall|id: Pubkey| old(self).issued(id) ==> final(self).issued(id),
    {
        let found = self.find(&seed);
        match found {
            Some(id) => Some(id),
            None => {
                if self.next == u64::MAX {
                    return None;
                }
                let id = self.next;
                let ghost k = seed@;
                let ghost old_entries = self.entries@;
                self.entries.push((seed, id));
                self.next = self.next + 1;
                proof {
                    let n = old_entries.len() as int;
                    assert(self.entries@[n].0@ == k);
                    assert(self.knows(k));
                    let c = choose|j: int|
                        0 <= j < self.entries@.len() && #[trigger] self.entries@[j].0@ == k;
                    if c < n {
                        assert(old_entries[c].0@ == k);
                    }
                    assert forall|k2: SeedKey| k2 != k implies (self.knows(k2) == old(self).knows(
                        k2,
                    )) && (old(self).knows(k2) ==> self.resolve(k2) == old(self).resolve(k2)) by {
                        if old(self).knows(k2) {
                            let j = choose|j: int|
                                0 <= j < old_entries.len() && #[trigger] old_entries[j].0@ == k2;
                            assert(self.entries@[j].0@ == k2);
                            let c2 = choose|j: int|
                                0 <= j < self.entries@.len() && #[trigger] self.entries@[j].0@
                                    == k2;
                            let c1 = choose|j: int|
                                0 <= j < old_entries.len() && #[trigger] old_entries[j].0@ == k2;
                            assert(c2 < n);
                            if c1 != c2 {
                                if c1 < c2 {
                                    assert(old_entries[c1].0@ != old_entries[c2].0@);
                                } else {
                                    assert(old_entries[c2].0@ != old_entries[c1].0@);
                                }
                            }
                        }
                        if self.knows(k2) {
                            let j = choose|j: int|
                                0 <= j < self.entries@.len() && #[trigger] self.entries@[j].0@
                                    == k2;
                            assert(j < n);
                            assert(old_entries[j].0@ == k2);
                        }
                    }
                }
                Some(id)
            },
        }
    }
}

} // verus!
