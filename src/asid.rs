//! The ASID directory: an outer table of pools indexed by the high bits of
//! an ASID, each pool holding one translation root per low-bits value.
use vstd::prelude::*;

use crate::structures::{exception_t, findVSpaceForASID_ret, lookup_fault};

verus! {

/// Address-space identifier.
pub type asid_t = usize;

pub const ASID_LOW_BITS: usize = 9;
pub const ASID_HIGH_BITS: usize = 7;
/// Number of pools the outer directory can hold.
pub const ASID_TABLE_SLOTS: usize = 128;
/// Number of ASIDs, and of root slots over all pools.
pub const ASID_COUNT: usize = 0x10000;
/// The ASID of the initial thread.
pub const IT_ASID: usize = 1;

/// The directory and the pools it can name. A pool is an object of its
/// own: pool `p` (numbered from 1) keeps the root of low-bits value `l` at
/// `roots[512 * (p - 1) + l]`, whether or not the directory names it. The
/// directory entry `h` names the pool that serves ASIDs `512 * h ..
/// 512 * h + 511`, or is zero. A root slot of zero is empty.
pub struct AsidTable {
    pub pools: Vec<u64>,
    pub roots: Vec<u64>,
}

pub open spec fn pool_index(asid: int) -> int {
    asid / 512
}

/// Where the root of `asid` is kept, in the pool the directory names for it.
pub open spec fn pool_slot(pools: Seq<u64>, asid: int) -> int {
    (pools[pool_index(asid)] - 1) * 512 + asid % 512
}

/// The root bound to `asid`, if its pool is installed and its slot is set.
pub open spec fn lookup_in(pools: Seq<u64>, roots: Seq<u64>, asid: int) -> Option<u64> {
    if pools[pool_index(asid)] != 0 && roots[pool_slot(pools, asid)] != 0 {
        Some(roots[pool_slot(pools, asid)])
    } else {
        None
    }
}

/// The pools after binding `root` to `asid`: set when its pool is installed.
pub open spec fn bind_in(pools: Seq<u64>, roots: Seq<u64>, asid: int, root: u64) -> Seq<u64> {
    if pools[pool_index(asid)] != 0 {
        roots.update(pool_slot(pools, asid), root)
    } else {
        roots
    }
}

/// The pools after unbinding `asid` from `expected`: cleared only when the
/// pool is installed and the slot holds exactly `expected`.
pub open spec fn unbind_in(pools: Seq<u64>, roots: Seq<u64>, asid: int, expected: u64) -> Seq<u64> {
    if pools[pool_index(asid)] != 0 && roots[pool_slot(pools, asid)] == expected {
        roots.update(pool_slot(pools, asid), 0)
    } else {
        roots
    }
}

pub proof fn lemma_asid_split(asid: usize)
    requires
        asid < 0x10000,
    ensures
        asid >> 9 == asid / 512,
        asid >> 9 < 128,
        asid & 511 == asid % 512,
{
    assert(asid >> 9 == asid / 512 && asid & 511 == asid % 512) by (bit_vector);
    assert(asid >> 9 < 128) by (bit_vector)
        requires
            asid < 0x10000,
    ;
}

proof fn lemma_slot_in_store(p: int, l: int, n: int)
    requires
        1 <= p <= n,
        0 <= l < 512,
    ensures
        0 <= (p - 1) * 512 + l < n * 512,
{
    assert(0 <= (p - 1) * 512 + l < n * 512) by (nonlinear_arith)
        requires
            1 <= p <= n,
            0 <= l < 512,
    ;
}

impl AsidTable {
    pub open spec fn n_pools(&self) -> int {
        self.roots@.len() as int / 512
    }

    pub open spec fn wf(&self) -> bool {
        &&& self.pools@.len() == ASID_TABLE_SLOTS
        &&& self.roots@.len() % 512 == 0
        &&& forall|h: int| 0 <= h < ASID_TABLE_SLOTS ==> #[trigger] self.pools@[h] <= self.n_pools()
    }

    pub open spec fn lookup(&self, asid: int) -> Option<u64> {
        lookup_in(self.pools@, self.roots@, asid)
    }

    /// An empty directory with `n_pools` empty pools, numbered 1 to `n_pools`.
    pub fn new(n_pools: usize) -> (r: Self)
        requires
            n_pools * 512 <= usize::MAX,
        ensures
            r.wf(),
            r.n_pools() == n_pools,
            forall|h: int| 0 <= h < ASID_TABLE_SLOTS ==> r.pools@[h] == 0,
            forall|a: int| 0 <= a < r.roots@.len() ==> r.roots@[a] == 0,
    {
        let mut pools: Vec<u64> = Vec::new();
        let mut i: usize = 0;
        while i < ASID_TABLE_SLOTS
            invariant
                i <= ASID_TABLE_SLOTS,
                pools@.len() == i,
                forall|j: int| 0 <= j < i ==> pools@[j] == 0,
            decreases ASID_TABLE_SLOTS - i,
        {
            pools.push(0);
            i = i + 1;
        }
        let n = n_pools * 512;
        let mut roots: Vec<u64> = Vec::new();
        let mut k: usize = 0;
        while k < n
            invariant
                k <= n,
                roots@.len() == k,
                forall|j: int| 0 <= j < k ==> roots@[j] == 0,
            decreases n - k,
        {
            roots.push(0);
            k = k + 1;
        }
        assert(n % 512 == 0 && n / 512 == n_pools) by (nonlinear_arith)
            requires
                n == n_pools * 512,
        ;
        AsidTable { pools, roots }
    }

    /// Where the root of `asid` is kept, when its pool is installed.
    fn slot_of(&self, asid: asid_t) -> (r: Option<usize>)
        requires
            self.wf(),
            asid < ASID_COUNT,
        ensures
            r is None <==> self.pools@[pool_index(asid as int)] == 0,
            r matches Some(s) ==> s == pool_slot(self.pools@, asid as int) && s < self.roots@.len(),
    {
        proof {
            lemma_asid_split(asid);
        }
        let p = self.pools[asid >> ASID_LOW_BITS];
        if p == 0 {
            return None;
        }
        let len = self.roots.len();
        proof {
            assert(self.pools@[(asid >> 9) as int] <= self.n_pools());
            lemma_slot_in_store(p as int, asid as int % 512, self.n_pools());
            assert(self.n_pools() * 512 == len) by (nonlinear_arith)
                requires
                    len % 512 == 0,
                    self.n_pools() == len as int / 512,
            ;
        }
        Some(((p - 1) as usize) * 512 + (asid & 511))
    }

    /// The root bound to `asid`, or `InvalidRoot` when its pool or its slot is empty.
    pub fn lookup_root(&self, asid: asid_t) -> (r: Result<u64, lookup_fault>)
        requires
            self.wf(),
            asid < ASID_COUNT,
        ensures
            r matches Ok(root) ==> self.lookup(asid as int) == Some(root),
            r is Err ==> self.lookup(asid as int) is None && r == Err::<u64, lookup_fault>(
                lookup_fault::InvalidRoot,
            ),
    {
        let slot = match self.slot_of(asid) {
            Some(s) => s,
            None => {
                return Err(lookup_fault::InvalidRoot);
            },
        };
        let root = self.roots[slot];
        if root == 0 {
            return Err(lookup_fault::InvalidRoot);
        }
        Ok(root)
    }

    /// Installs `root` for `asid` in its pool; without a pool nothing changes.
    /// Returns whether the pool was there.
    pub fn bind(&mut self, asid: asid_t, root: u64) -> (r: bool)
        requires
            old(self).wf(),
            asid < ASID_COUNT,
        ensures
            final(self).wf(),
            final(self).pools@ == old(self).pools@,
            final(self).roots@ == bind_in(old(self).pools@, old(self).roots@, asid as int, root),
            r == (old(self).pools@[pool_index(asid as int)] != 0),
    {
        match self.slot_of(asid) {
            Some(s) => {
                self.roots.set(s, root);
                true
            },
            None => false,
        }
    }

    /// Clears the slot of `asid` if it holds exactly `expected`; returns whether it did.
    pub fn unbind(&mut self, asid: asid_t, expected: u64) -> (r: bool)
        requires
            old(self).wf(),
            asid < ASID_COUNT,
        ensures
            final(self).wf(),
            final(self).pools@ == old(self).pools@,
            final(self).roots@ == unbind_in(old(self).pools@, old(self).roots@, asid as int, expected),
            r == (old(self).pools@[pool_index(asid as int)] != 0 && old(self).roots@[pool_slot(
                old(self).pools@,
                asid as int,
            )] == expected),
    {
        match self.slot_of(asid) {
            Some(s) => {
                if self.roots[s] == expected {
                    self.roots.set(s, 0);
                    true
                } else {
                    false
                }
            },
            None => false,
        }
    }

    /// Names pool `pool_ref` (zero for none) at outer index `index`. The
    /// contents of every pool stay as they are.
    pub fn install_pool(&mut self, index: usize, pool_ref: u64)
        requires
            old(self).wf(),
            index < ASID_TABLE_SLOTS,
            pool_ref <= old(self).n_pools(),
        ensures
            final(self).wf(),
            final(self).pools@ == old(self).pools@.update(index as int, pool_ref),
            final(self).roots@ == old(self).roots@,
    {
        self.pools.set(index, pool_ref);
    }

    /// Clears outer index `index` if it names exactly `expected`; returns
    /// whether it did. The pools themselves keep their contents.
    pub fn remove_pool(&mut self, index: usize, expected: u64) -> (r: bool)
        requires
            old(self).wf(),
            index < ASID_TABLE_SLOTS,
        ensures
            final(self).wf(),
            final(self).roots@ == old(self).roots@,
            r == (old(self).pools@[index as int] == expected),
            final(self).pools@ == if r {
                old(self).pools@.update(index as int, 0)
            } else {
                old(self).pools@
            },
    {
        if self.pools[index] == expected {
            self.pools.set(index, 0);
            true
        } else {
            false
        }
    }
}

/// Looks up the translation root bound to `asid`.
pub fn find_vspace_for_asid(table: &AsidTable, asid: asid_t) -> (r: findVSpaceForASID_ret)
    requires
        table.wf(),
        asid < ASID_COUNT,
    ensures
        r == match table.lookup(asid as int) {
            Some(root) => findVSpaceForASID_ret {
                status: exception_t::EXCEPTION_NONE,
                vspace_root: Some(root),
                lookup_fault: None,
            },
            None => findVSpaceForASID_ret {
                status: exception_t::EXCEPTION_LOOKUP_FAULT,
                vspace_root: None,
                lookup_fault: Some(lookup_fault::InvalidRoot),
            },
        },
{
    match table.lookup_root(asid) {
        Ok(root) => findVSpaceForASID_ret {
            status: exception_t::EXCEPTION_NONE,
            vspace_root: Some(root),
            lookup_fault: None,
        },
        Err(f) => findVSpaceForASID_ret {
            status: exception_t::EXCEPTION_LOOKUP_FAULT,
            vspace_root: None,
            lookup_fault: Some(f),
        },
    }
}

/// Binding a second root to an ASID replaces the first: the lookup gives
/// the second, and a later unbind that expects the first changes nothing,
/// so the lookup still gives the second. Roots are non-zero, the pool is
/// installed and the two roots differ.
pub proof fn lemma_bind_exclusive(pools: Seq<u64>, roots: Seq<u64>, asid: int, root_a: u64, root_b: u64)
    requires
        pools.len() == ASID_TABLE_SLOTS,
        0 <= asid < ASID_COUNT,
        pools[pool_index(asid)] != 0,
        0 <= pool_slot(pools, asid) < roots.len(),
        root_a != 0,
        root_b != 0,
        root_a != root_b,
    ensures
        ({
            let r1 = bind_in(pools, roots, asid, root_a);
            let r2 = bind_in(pools, r1, asid, root_b);
            let r3 = unbind_in(pools, r2, asid, root_a);
            &&& lookup_in(pools, r2, asid) == Some(root_b)
            &&& r3 == r2
            &&& lookup_in(pools, r3, asid) == Some(root_b)
        }),
{
}

} // verus!
