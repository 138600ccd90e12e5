//! The vesting engine: the pool registry, the grant registry and the claim
//! settlement state machine, over a ledger of records keyed by derived
//! addresses. Creation is one-shot per derived address; a claim is a single
//! all-or-nothing unit of work that either rejects before any mutation or
//! settles the payout and the withdrawal state together.

use crate::accounts::{EmployeeAccount, VestingAccount, MAX_COMPANY_NAME_LEN};
use crate::address::{
    derive_address, grant_seeds, pool_seeds, spec_derived, spec_grant_seeds, spec_pool_seeds,
    spec_treasury_seeds, treasury_seeds, Address,
};
use crate::error::VestingError;
use crate::schedule::{
    claimable_amount, lemma_unlocked_bounds, spec_claimable, spec_schedule_valid, spec_unlocked,
};
use vstd::prelude::*;

verus! {

/// The mathematical view of a pool: its record fields, the address the
/// record lives at, and the balance of its treasury custody account.
#[verifier::ext_equal]
pub ghost struct PoolModel {
    pub address: Seq<u8>,
    pub owner: Seq<u8>,
    pub mint: Seq<u8>,
    pub treasury: Seq<u8>,
    pub company_name: Seq<u8>,
    pub treasury_bump: u8,
    pub bump: u8,
    pub balance: int,
}

/// The mathematical view of a grant: its record fields and the address the
/// record lives at.
#[verifier::ext_equal]
pub ghost struct GrantModel {
    pub address: Seq<u8>,
    pub beneficiary: Seq<u8>,
    pub pool: Seq<u8>,
    pub start_time: int,
    pub end_time: int,
    pub cliff_time: int,
    pub total: int,
    pub withdrawn: int,
    pub bump: u8,
}

/// The mathematical view of the whole engine state.
#[verifier::ext_equal]
pub ghost struct EngineModel {
    pub program: Seq<u8>,
    pub pools: Seq<PoolModel>,
    pub grants: Seq<GrantModel>,
}

impl EngineModel {
    /// Some pool record lives at `address`.
    pub open spec fn has_pool_at(self, address: Seq<u8>) -> bool {
        exists|i: int| 0 <= i < self.pools.len() && self.pools[i].address == address
    }

    /// The pool record at `address`; meaningful only when `has_pool_at`.
    pub open spec fn pool_at(self, address: Seq<u8>) -> PoolModel {
        self.pools[choose|i: int| 0 <= i < self.pools.len() && self.pools[i].address == address]
    }

    /// Some pool's treasury custody account lives at `address`.
    pub open spec fn has_treasury_at(self, address: Seq<u8>) -> bool {
        exists|i: int| 0 <= i < self.pools.len() && self.pools[i].treasury == address
    }

    /// Some grant record lives at `address`.
    pub open spec fn has_grant_at(self, address: Seq<u8>) -> bool {
        exists|i: int| 0 <= i < self.grants.len() && self.grants[i].address == address
    }

    /// The grant record at `address`; meaningful only when `has_grant_at`.
    pub open spec fn grant_at(self, address: Seq<u8>) -> GrantModel {
        self.grants[choose|i: int| 0 <= i < self.grants.len() && self.grants[i].address == address]
    }

    /// `address` is free for a new record: no pool record and no treasury
    /// custody account occupies it.
    pub open spec fn pool_namespace_free(self, address: Seq<u8>) -> bool {
        !self.has_pool_at(address) && !self.has_treasury_at(address)
    }
}

/// A pool is internally consistent: its address and its treasury address
/// re-derive, with the persisted bumps, from the company name; the name is
/// within bounds.
pub open spec fn spec_pool_wf(p: PoolModel, program: Seq<u8>) -> bool {
    &&& spec_derived(program, spec_pool_seeds(p.company_name)) == Some((p.address, p.bump))
    &&& spec_derived(program, spec_treasury_seeds(p.company_name)) == Some(
        (p.treasury, p.treasury_bump),
    )
    &&& p.company_name.len() <= MAX_COMPANY_NAME_LEN
    &&& 0 <= p.balance <= u64::MAX
}

/// A grant is internally consistent: its address re-derives, with the
/// persisted bump, from its beneficiary and owning pool; its schedule is
/// ordered; its withdrawal state never exceeds the grant total.
pub open spec fn spec_grant_wf(g: GrantModel, program: Seq<u8>) -> bool {
    &&& spec_derived(program, spec_grant_seeds(g.beneficiary, g.pool)) == Some(
        (g.address, g.bump),
    )
    &&& spec_schedule_valid(g.start_time, g.end_time, g.cliff_time)
    &&& 0 <= g.withdrawn <= g.total <= u64::MAX
}

/// A whole engine state is valid: every record is internally consistent,
/// every record lives at a distinct derived address, and no treasury custody
/// account shares an address with a pool record or another treasury. Every
/// state the engine exposes satisfies this.
pub open spec fn spec_engine_wf(m: EngineModel) -> bool {
    &&& forall|i: int, j: int|
        #![trigger m.pools[i], m.pools[j]]
        0 <= i < m.pools.len() && 0 <= j < m.pools.len() && i != j ==> m.pools[i].address
            != m.pools[j].address && m.pools[i].treasury != m.pools[j].treasury
    &&& forall|i: int, j: int|
        #![trigger m.pools[i], m.pools[j]]
        0 <= i < m.pools.len() && 0 <= j < m.pools.len() ==> m.pools[i].treasury
            != m.pools[j].address
    &&& forall|i: int| 0 <= i < m.pools.len() ==> spec_pool_wf(#[trigger] m.pools[i], m.program)
    &&& forall|i: int, j: int|
        #![trigger m.grants[i], m.grants[j]]
        0 <= i < m.grants.len() && 0 <= j < m.grants.len() && i != j ==> m.grants[i].address
            != m.grants[j].address
    &&& forall|i: int| 0 <= i < m.grants.len() ==> spec_grant_wf(#[trigger] m.grants[i], m.program)
}

/// A pool record together with the ledger state keyed to it.
struct PoolEntry {
    address: Address,
    account: VestingAccount,
    treasury_balance: u64,
}

/// A grant record together with the address it lives at.
#[derive(Clone, Copy)]
struct GrantEntry {
    address: Address,
    account: EmployeeAccount,
}

impl PoolEntry {
    spec fn model(&self) -> PoolModel {
        PoolModel {
            address: self.address@,
            owner: self.account.owner@,
            mint: self.account.mint@,
            treasury: self.account.treasury_token_account@,
            company_name: self.account.company_name@,
            treasury_bump: self.account.treasury_bump,
            bump: self.account.bump,
            balance: self.treasury_balance as int,
        }
    }
}

impl GrantEntry {
    spec fn model(&self) -> GrantModel {
        GrantModel {
            address: self.address@,
            beneficiary: self.account.beneficiary@,
            pool: self.account.vesting_account@,
            start_time: self.account.start_time as int,
            end_time: self.account.end_time as int,
            cliff_time: self.account.cliff_time as int,
            total: self.account.total_amount as int,
            withdrawn: self.account.total_withdrawn as int,
            bump: self.account.bump,
        }
    }
}

/// The vesting engine: every pool and grant record, keyed by derived
/// addresses, together with the treasury balances the claims settle against.
pub struct VestingEngine {
    program_id: Address,
    pools: Vec<PoolEntry>,
    grants: Vec<GrantEntry>,
}

impl View for VestingEngine {
    type V = EngineModel;

    closed spec fn view(&self) -> EngineModel {
        EngineModel {
            program: self.program_id@,
            pools: Seq::new(self.pools@.len(), |i: int| self.pools@[i].model()),
            grants: Seq::new(self.grants@.len(), |i: int| self.grants@[i].model()),
        }
    }
}

/// The grants after a claim settles `payout` against the grant at `address`.
pub open spec fn spec_grants_settled(
    grants: Seq<GrantModel>,
    address: Seq<u8>,
    payout: int,
) -> Seq<GrantModel> {
    Seq::new(
        grants.len(),
        |i: int|
            if grants[i].address == address {
                GrantModel {
                    address: grants[i].address,
                    beneficiary: grants[i].beneficiary,
                    pool: grants[i].pool,
                    start_time: grants[i].start_time,
                    end_time: grants[i].end_time,
                    cliff_time: grants[i].cliff_time,
                    total: grants[i].total,
                    withdrawn: grants[i].withdrawn + payout,
                    bump: grants[i].bump,
                }
            } else {
                grants[i]
            },
    )
}

/// The pools after a claim moves `payout` out of the treasury of the pool at
/// `address`.
pub open spec fn spec_pools_debited(
    pools: Seq<PoolModel>,
    address: Seq<u8>,
    payout: int,
) -> Seq<PoolModel> {
    Seq::new(
        pools.len(),
        |i: int|
            if pools[i].address == address {
                PoolModel {
                    address: pools[i].address,
                    owner: pools[i].owner,
                    mint: pools[i].mint,
                    treasury: pools[i].treasury,
                    company_name: pools[i].company_name,
                    treasury_bump: pools[i].treasury_bump,
                    bump: pools[i].bump,
                    balance: pools[i].balance - payout,
                }
            } else {
                pools[i]
            },
    )
}

/// What creating a pool does: it rejects a malformed token descriptor, an
/// exhausted address search, and an occupied address, each without touching
/// the state; otherwise it appends exactly the new pool, with an empty
/// treasury, at the derived address.
pub open spec fn spec_create_pool(
    pre: EngineModel,
    post: EngineModel,
    signer: Seq<u8>,
    token_mint: Seq<u8>,
    company_name: Seq<u8>,
    r: Result<Address, VestingError>,
) -> bool {
    if token_mint.len() != 32 {
        r matches Err(VestingError::InvalidTokenKind) && post == pre
    } else {
        match (
            spec_derived(pre.program, spec_pool_seeds(company_name)),
            spec_derived(pre.program, spec_treasury_seeds(company_name)),
        ) {
            (Some(pool_found), Some(treasury_found)) => {
                let (pool_address, bump) = pool_found;
                let (treasury_address, treasury_bump) = treasury_found;
                if !pre.pool_namespace_free(pool_address) || !pre.pool_namespace_free(
                    treasury_address,
                ) || pool_address == treasury_address {
                    r matches Err(VestingError::DuplicateCompany) && post == pre
                } else {
                    &&& r matches Ok(a) && a@ == pool_address
                    &&& post.program == pre.program
                    &&& post.grants == pre.grants
                    &&& post.pools == pre.pools.push(
                        PoolModel {
                            address: pool_address,
                            owner: signer,
                            mint: token_mint,
                            treasury: treasury_address,
                            company_name: company_name,
                            treasury_bump: treasury_bump,
                            bump: bump,
                            balance: 0,
                        },
                    )
                }
            },
            _ => r matches Err(VestingError::AddressSpaceExhausted) && post == pre,
        }
    }
}

/// What creating a grant does: it rejects an unknown pool, a caller other
/// than the pool owner, a misordered schedule, an exhausted address search
/// and an occupied grant address, each without touching the state; otherwise
/// it appends exactly the new grant, with nothing withdrawn, at the derived
/// address.
pub open spec fn spec_create_grant(
    pre: EngineModel,
    post: EngineModel,
    owner: Seq<u8>,
    beneficiary: Seq<u8>,
    pool_address: Seq<u8>,
    start_time: int,
    end_time: int,
    total_amount: int,
    cliff_time: int,
    r: Result<Address, VestingError>,
) -> bool {
    if !pre.has_pool_at(pool_address) {
        r matches Err(VestingError::AccountMismatch) && post == pre
    } else if owner != pre.pool_at(pool_address).owner {
        r matches Err(VestingError::Unauthorized) && post == pre
    } else if !spec_schedule_valid(start_time, end_time, cliff_time) {
        r matches Err(VestingError::InvalidSchedule) && post == pre
    } else {
        match spec_derived(pre.program, spec_grant_seeds(beneficiary, pool_address)) {
            None => r matches Err(VestingError::AddressSpaceExhausted) && post == pre,
            Some(grant_found) => {
                let (grant_address, bump) = grant_found;
                if pre.has_grant_at(grant_address) {
                    r matches Err(VestingError::DuplicateGrant) && post == pre
                } else {
                    &&& r matches Ok(a) && a@ == grant_address
                    &&& post.program == pre.program
                    &&& post.pools == pre.pools
                    &&& post.grants == pre.grants.push(
                        GrantModel {
                            address: grant_address,
                            beneficiary: beneficiary,
                            pool: pool_address,
                            start_time: start_time,
                            end_time: end_time,
                            cliff_time: cliff_time,
                            total: total_amount,
                            withdrawn: 0,
                            bump: bump,
                        },
                    )
                }
            },
        }
    }
}

/// What a claim does: it re-validates the addresses and the caller, rejects
/// before any mutation, settles a zero payout as a no-op, and otherwise pays
/// out exactly the claimable amount, debiting the treasury and crediting the
/// withdrawal state together.
pub open spec fn spec_claim(
    pre: EngineModel,
    post: EngineModel,
    caller: Seq<u8>,
    grant_address: Seq<u8>,
    pool_address: Seq<u8>,
    now: int,
    r: Result<u64, VestingError>,
) -> bool {
    if !pre.has_grant_at(grant_address) {
        r matches Err(VestingError::AddressMismatch) && post == pre
    } else {
        let g = pre.grant_at(grant_address);
        if caller != g.beneficiary {
            r matches Err(VestingError::Unauthorized) && post == pre
        } else if g.pool != pool_address || !pre.has_pool_at(pool_address) {
            r matches Err(VestingError::AccountMismatch) && post == pre
        } else {
            let payout = spec_claimable(
                now,
                g.start_time,
                g.end_time,
                g.cliff_time,
                g.total,
                g.withdrawn,
            );
            if payout == 0 {
                r matches Ok(a) && a == 0 && post == pre
            } else if pre.pool_at(pool_address).balance < payout {
                r matches Err(VestingError::InsufficientTreasuryBalance) && post == pre
            } else {
                &&& r matches Ok(a) && a == payout
                &&& post.program == pre.program
                &&& post.grants == spec_grants_settled(pre.grants, grant_address, payout)
                &&& post.pools == spec_pools_debited(pre.pools, pool_address, payout)
            }
        }
    }
}

/// What a deposit does: it rejects an unknown pool and a treasury that
/// cannot hold the amount, each without touching the state; otherwise it
/// credits exactly the amount to the pool's treasury.
pub open spec fn spec_deposit(
    pre: EngineModel,
    post: EngineModel,
    pool_address: Seq<u8>,
    amount: int,
    r: Result<(), VestingError>,
) -> bool {
    if !pre.has_pool_at(pool_address) {
        r matches Err(VestingError::AccountMismatch) && post == pre
    } else if pre.pool_at(pool_address).balance + amount > u64::MAX {
        r matches Err(VestingError::InsufficientTreasuryBalance) && post == pre
    } else {
        &&& r is Ok
        &&& post.program == pre.program
        &&& post.grants == pre.grants
        &&& post.pools == spec_pools_debited(pre.pools, pool_address, -amount)
    }
}

/// A company name keys at most one pool: after a pool was created for a
/// name, creating again under the same name, with any well-formed token
/// descriptor, is rejected with `DuplicateCompany` and changes nothing.
pub proof fn lemma_create_pool_unique(
    pre: EngineModel,
    mid: EngineModel,
    post: EngineModel,
    signer1: Seq<u8>,
    mint1: Seq<u8>,
    signer2: Seq<u8>,
    mint2: Seq<u8>,
    company_name: Seq<u8>,
    r1: Result<Address, VestingError>,
    r2: Result<Address, VestingError>,
)
    requires
        spec_create_pool(pre, mid, signer1, mint1, company_name, r1),
        r1 is Ok,
        mint2.len() == 32,
        spec_create_pool(mid, post, signer2, mint2, company_name, r2),
    ensures
        r2 matches Err(VestingError::DuplicateCompany),
        post == mid,
{
    let pool_found = spec_derived(pre.program, spec_pool_seeds(company_name));
    let address = pool_found->Some_0.0;
    assert(mid.pools.len() == pre.pools.len() + 1);
    assert(mid.pools[pre.pools.len() as int].address == address);
    assert(mid.has_pool_at(address));
}

/// A pool and a beneficiary key at most one grant: after a grant was created
/// for the pair, creating again for the same pair, by the pool's owner and
/// with any valid schedule, is rejected with `DuplicateGrant` and changes
/// nothing.
pub proof fn lemma_create_grant_unique(
    pre: EngineModel,
    mid: EngineModel,
    post: EngineModel,
    owner1: Seq<u8>,
    owner2: Seq<u8>,
    beneficiary: Seq<u8>,
    pool_address: Seq<u8>,
    start1: int,
    end1: int,
    total1: int,
    cliff1: int,
    start2: int,
    end2: int,
    total2: int,
    cliff2: int,
    r1: Result<Address, VestingError>,
    r2: Result<Address, VestingError>,
)
    requires
        spec_create_grant(
            pre,
            mid,
            owner1,
            beneficiary,
            pool_address,
            start1,
            end1,
            total1,
            cliff1,
            r1,
        ),
        r1 is Ok,
        owner2 == mid.pool_at(pool_address).owner,
        spec_schedule_valid(start2, end2, cliff2),
        spec_create_grant(
            mid,
            post,
            owner2,
            beneficiary,
            pool_address,
            start2,
            end2,
            total2,
            cliff2,
            r2,
        ),
    ensures
        r2 matches Err(VestingError::DuplicateGrant),
        post == mid,
{
    let grant_found = spec_derived(pre.program, spec_grant_seeds(beneficiary, pool_address));
    let address = grant_found->Some_0.0;
    assert(mid.pools == pre.pools);
    assert(mid.has_pool_at(pool_address));
    assert(mid.grants.len() == pre.grants.len() + 1);
    assert(mid.grants[pre.grants.len() as int].address == address);
    assert(mid.has_grant_at(address));
}

/// A claim is idempotent: right after a successful claim, a second claim by
/// the same caller at the same `now` pays nothing and changes nothing.
pub proof fn lemma_claim_twice(
    pre: EngineModel,
    mid: EngineModel,
    post: EngineModel,
    caller: Seq<u8>,
    grant_address: Seq<u8>,
    pool_address: Seq<u8>,
    now: int,
    r1: Result<u64, VestingError>,
    r2: Result<u64, VestingError>,
)
    requires
        spec_engine_wf(pre),
        spec_claim(pre, mid, caller, grant_address, pool_address, now, r1),
        r1 is Ok,
        spec_claim(mid, post, caller, grant_address, pool_address, now, r2),
    ensures
        r2 matches Ok(p) && p == 0,
        post == mid,
{
    let g = pre.grant_at(grant_address);
    let payout1 = spec_claimable(now, g.start_time, g.end_time, g.cliff_time, g.total, g.withdrawn);
    let k = choose|k: int| 0 <= k < pre.grants.len() && pre.grants[k].address == grant_address;
    assert(g == pre.grants[k]);
    assert(spec_grant_wf(pre.grants[k], pre.program));
    if payout1 != 0 {
        assert(mid.grants == spec_grants_settled(pre.grants, grant_address, payout1));
        assert(mid.grants[k].address == grant_address);
        assert(mid.has_grant_at(grant_address));
        let k2 = choose|i: int| 0 <= i < mid.grants.len() && mid.grants[i].address == grant_address;
        assert(mid.grants[k2].address == grant_address);
        if k2 != k {
            assert(pre.grants[k2].address == grant_address);
            assert(pre.grants[k2].address != pre.grants[k].address);
            assert(false);
        }
        let g2 = mid.grant_at(grant_address);
        assert(g2 == mid.grants[k]);
        assert(g2.withdrawn == g.withdrawn + payout1);
        crate::schedule::lemma_claim_idempotent(
            now,
            g.start_time,
            g.end_time,
            g.cliff_time,
            g.total,
            g.withdrawn,
        );
        assert(mid.pools == spec_pools_debited(pre.pools, pool_address, payout1));
        let j = choose|j: int| 0 <= j < pre.pools.len() && pre.pools[j].address == pool_address;
        assert(mid.pools[j].address == pool_address);
        assert(mid.has_pool_at(pool_address));
    }
}

/// Finds the index of the pool record at `address`, if one exists.
fn find_pool(pools: &Vec<PoolEntry>, address: &Address) -> (r: Option<usize>)
    ensures
        match r {
            Some(i) => 0 <= i < pools@.len() && pools@[i as int].address@ == address@,
            None => forall|i: int| 0 <= i < pools@.len() ==> pools@[i].address@ != address@,
        },
{
    let mut i: usize = 0;
    while i < pools.len()
        invariant
            i <= pools@.len(),
            forall|j: int| 0 <= j < i ==> pools@[j].address@ != address@,
        decreases pools@.len() - i,
    {
        if pools[i].address == *address {
            return Some(i);
        }
        i += 1;
    }
    None
}

/// Whether some pool's treasury custody account lives at `address`.
fn treasury_in_use(pools: &Vec<PoolEntry>, address: &Address) -> (r: bool)
    ensures
        r == exists|i: int|
            0 <= i < pools@.len() && pools@[i].account.treasury_token_account@ == address@,
{
    let mut i: usize = 0;
    while i < pools.len()
        invariant
            i <= pools@.len(),
            forall|j: int| 0 <= j < i ==> pools@[j].account.treasury_token_account@ != address@,
        decreases pools@.len() - i,
    {
        if pools[i].account.treasury_token_account == *address {
            return true;
        }
        i += 1;
    }
    false
}

/// Finds the index of the grant record at `address`, if one exists.
fn find_grant(grants: &Vec<GrantEntry>, address: &Address) -> (r: Option<usize>)
    ensures
        match r {
            Some(i) => 0 <= i < grants@.len() && grants@[i as int].address@ == address@,
            None => forall|i: int| 0 <= i < grants@.len() ==> grants@[i].address@ != address@,
        },
{
    let mut i: usize = 0;
    while i < grants.len()
        invariant
            i <= grants@.len(),
            forall|j: int| 0 <= j < i ==> grants@[j].address@ != address@,
        decreases grants@.len() - i,
    {
        if grants[i].address == *address {
            return Some(i);
        }
        i += 1;
    }
    None
}

impl VestingEngine {
    /// Every record of the engine is internally consistent, lives at a
    /// distinct derived address, and no treasury custody account shares an
    /// address with a pool record or another treasury.
    #[verifier::type_invariant]
    spec fn wf(self) -> bool {
        &&& forall|i: int, j: int|
            #![trigger self.pools@[i], self.pools@[j]]
            0 <= i < self.pools@.len() && 0 <= j < self.pools@.len() && i != j
                ==> self.pools@[i].model().address != self.pools@[j].model().address
                    && self.pools@[i].model().treasury != self.pools@[j].model().treasury
        &&& forall|i: int, j: int|
            #![trigger self.pools@[i], self.pools@[j]]
            0 <= i < self.pools@.len() && 0 <= j < self.pools@.len()
                ==> self.pools@[i].model().treasury != self.pools@[j].model().address
        &&& forall|i: int|
            0 <= i < self.pools@.len() ==> spec_pool_wf(
                (#[trigger] self.pools@[i]).model(),
                self.program_id@,
            )
        &&& forall|i: int, j: int|
            #![trigger self.grants@[i], self.grants@[j]]
            0 <= i < self.grants@.len() && 0 <= j < self.grants@.len() && i != j
                ==> self.grants@[i].model().address != self.grants@[j].model().address
        &&& forall|i: int|
            0 <= i < self.grants@.len() ==> spec_grant_wf(
                (#[trigger] self.grants@[i]).model(),
                self.program_id@,
            )
    }

    /// How the abstract model reads off the concrete entries.
    proof fn view_facts(&self)
        ensures
            self@.program == self.program_id@,
            self@.pools.len() == self.pools@.len(),
            self@.grants.len() == self.grants@.len(),
            forall|i: int|
                0 <= i < self.pools@.len() ==> #[trigger] self@.pools[i] == self.pools@[i].model(),
            forall|i: int|
                0 <= i < self.grants@.len() ==> #[trigger] self@.grants[i]
                    == self.grants@[i].model(),
    {
    }

    /// The type invariant seen at the model level.
    proof fn lemma_engine_wf(&self)
        requires
            self.wf(),
        ensures
            spec_engine_wf(self@),
    {
        self.view_facts();
        let m = self@;
        assert forall|i: int, j: int|
            #![trigger m.pools[i], m.pools[j]]
            0 <= i < m.pools.len() && 0 <= j < m.pools.len() && i != j implies m.pools[i].address
            != m.pools[j].address && m.pools[i].treasury != m.pools[j].treasury by {
            assert(m.pools[i] == self.pools@[i].model());
            assert(m.pools[j] == self.pools@[j].model());
        }
        assert forall|i: int, j: int|
            #![trigger m.pools[i], m.pools[j]]
            0 <= i < m.pools.len() && 0 <= j < m.pools.len() implies m.pools[i].treasury
            != m.pools[j].address by {
            assert(m.pools[i] == self.pools@[i].model());
            assert(m.pools[j] == self.pools@[j].model());
        }
        assert forall|i: int| 0 <= i < m.pools.len() implies spec_pool_wf(
            #[trigger] m.pools[i],
            m.program,
        ) by {
            assert(m.pools[i] == self.pools@[i].model());
            assert(spec_pool_wf(self.pools@[i].model(), self.program_id@));
        }
        assert forall|i: int, j: int|
            #![trigger m.grants[i], m.grants[j]]
            0 <= i < m.grants.len() && 0 <= j < m.grants.len() && i != j implies m.grants[i].address
            != m.grants[j].address by {
            assert(m.grants[i] == self.grants@[i].model());
            assert(m.grants[j] == self.grants@[j].model());
        }
        assert forall|i: int| 0 <= i < m.grants.len() implies spec_grant_wf(
            #[trigger] m.grants[i],
            m.program,
        ) by {
            assert(m.grants[i] == self.grants@[i].model());
            assert(spec_grant_wf(self.grants@[i].model(), self.program_id@));
        }
    }

    /// A pool index denotes the pool the model looks up at its address.
    proof fn lemma_pool_at(&self, i: int)
        requires
            self.wf(),
            0 <= i < self@.pools.len(),
        ensures
            self@.has_pool_at(self@.pools[i].address),
            self@.pool_at(self@.pools[i].address) == self@.pools[i],
    {
        self.view_facts();
        let a = self@.pools[i].address;
        assert(self@.has_pool_at(a));
        let k = choose|k: int| 0 <= k < self@.pools.len() && self@.pools[k].address == a;
        assert(self@.pools[k] == self.pools@[k].model());
        assert(self@.pools[i] == self.pools@[i].model());
        if k != i {
            assert(self.pools@[k].model().address != self.pools@[i].model().address);
            assert(false);
        }
    }

    /// A grant index denotes the grant the model looks up at its address.
    proof fn lemma_grant_at(&self, i: int)
        requires
            self.wf(),
            0 <= i < self@.grants.len(),
        ensures
            self@.has_grant_at(self@.grants[i].address),
            self@.grant_at(self@.grants[i].address) == self@.grants[i],
    {
        self.view_facts();
        let a = self@.grants[i].address;
        assert(self@.has_grant_at(a));
        let k = choose|k: int| 0 <= k < self@.grants.len() && self@.grants[k].address == a;
        assert(self@.grants[k] == self.grants@[k].model());
        assert(self@.grants[i] == self.grants@[i].model());
        if k != i {
            assert(self.grants@[k].model().address != self.grants@[i].model().address);
            assert(false);
        }
    }

    /// The model finds a pool at an address exactly when some entry holds it.
    proof fn lemma_pool_bridge(&self, a: Seq<u8>)
        ensures
            self@.has_pool_at(a) == exists|i: int|
                0 <= i < self.pools@.len() && (#[trigger] self.pools@[i]).model().address == a,
    {
        self.view_facts();
        if self@.has_pool_at(a) {
            let k = choose|k: int| 0 <= k < self@.pools.len() && self@.pools[k].address == a;
            assert(self@.pools[k] == self.pools@[k].model());
            assert(0 <= k < self.pools@.len() && self.pools@[k].model().address == a);
        }
        if exists|i: int|
            0 <= i < self.pools@.len() && (#[trigger] self.pools@[i]).model().address == a {
            let k = choose|i: int|
                0 <= i < self.pools@.len() && (#[trigger] self.pools@[i]).model().address == a;
            assert(self@.pools[k] == self.pools@[k].model());
            assert(self@.has_pool_at(a));
        }
    }

    /// The model finds a treasury at an address exactly when some entry
    /// records it.
    proof fn lemma_treasury_bridge(&self, a: Seq<u8>)
        ensures
            self@.has_treasury_at(a) == exists|i: int|
                0 <= i < self.pools@.len() && (#[trigger] self.pools@[i]).model().treasury == a,
    {
        self.view_facts();
        if self@.has_treasury_at(a) {
            let k = choose|k: int| 0 <= k < self@.pools.len() && self@.pools[k].treasury == a;
            assert(self@.pools[k] == self.pools@[k].model());
            assert(0 <= k < self.pools@.len() && self.pools@[k].model().treasury == a);
        }
        if exists|i: int|
            0 <= i < self.pools@.len() && (#[trigger] self.pools@[i]).model().treasury == a {
            let k = choose|i: int|
                0 <= i < self.pools@.len() && (#[trigger] self.pools@[i]).model().treasury == a;
            assert(self@.pools[k] == self.pools@[k].model());
            assert(self@.has_treasury_at(a));
        }
    }

    /// The model finds a grant at an address exactly when some entry holds it.
    proof fn lemma_grant_bridge(&self, a: Seq<u8>)
        ensures
            self@.has_grant_at(a) == exists|i: int|
                0 <= i < self.grants@.len() && (#[trigger] self.grants@[i]).model().address == a,
    {
        self.view_facts();
        if self@.has_grant_at(a) {
            let k = choose|k: int| 0 <= k < self@.grants.len() && self@.grants[k].address == a;
            assert(self@.grants[k] == self.grants@[k].model());
            assert(0 <= k < self.grants@.len() && self.grants@[k].model().address == a);
        }
        if exists|i: int|
            0 <= i < self.grants@.len() && (#[trigger] self.grants@[i]).model().address == a {
            let k = choose|i: int|
                0 <= i < self.grants@.len() && (#[trigger] self.grants@[i]).model().address == a;
            assert(self@.grants[k] == self.grants@[k].model());
            assert(self@.has_grant_at(a));
        }
    }

    /// A fresh engine under a program identity, with no pools and no grants.
    pub fn new(program_id: Address) -> (engine: VestingEngine)
        ensures
            engine@.program == program_id@,
            engine@.pools == Seq::<PoolModel>::empty(),
            engine@.grants == Seq::<GrantModel>::empty(),
            spec_engine_wf(engine@),
    {
        let engine = VestingEngine { program_id, pools: Vec::new(), grants: Vec::new() };
        proof {
            assert(engine@.pools =~= Seq::<PoolModel>::empty());
            assert(engine@.grants =~= Seq::<GrantModel>::empty());
            use_type_invariant(&engine);
            engine.lemma_engine_wf();
        }
        engine
    }

    /// The program identity the engine derives record addresses under.
    pub fn program_id(&self) -> (r: Address)
        ensures
            r@ == self@.program,
    {
        self.program_id
    }

    /// Creates the vesting pool for a company: derives the pool and treasury
    /// addresses from the company name, rejects the creation wholesale if
    /// either address is already occupied, and otherwise persists the pool
    /// with an empty treasury custody account that only the engine controls.
    pub fn create_vesting_account(
        &mut self,
        signer: Address,
        token_mint: Vec<u8>,
        company_name: Vec<u8>,
    ) -> (r: Result<Address, VestingError>)
        requires
            company_name@.len() <= MAX_COMPANY_NAME_LEN as int,
        ensures
            spec_create_pool(old(self)@, final(self)@, signer@, token_mint@, company_name@, r),
            spec_engine_wf(final(self)@),
    {
        proof {
            use_type_invariant(&*self);
            self.view_facts();
            self.lemma_engine_wf();
        }
        let mint = match Address::from_bytes(&token_mint) {
            None => {
                return Err(VestingError::InvalidTokenKind);
            },
            Some(mint) => mint,
        };
        let seeds = pool_seeds(&company_name);
        let (pool_address, bump) = match derive_address(&self.program_id, &seeds) {
            None => {
                return Err(VestingError::AddressSpaceExhausted);
            },
            Some(found) => found,
        };
        let tseeds = treasury_seeds(&company_name);
        let (treasury_address, treasury_bump) = match derive_address(&self.program_id, &tseeds) {
            None => {
                return Err(VestingError::AddressSpaceExhausted);
            },
            Some(found) => found,
        };
        proof {
            self.lemma_pool_bridge(pool_address@);
            self.lemma_treasury_bridge(pool_address@);
            self.lemma_pool_bridge(treasury_address@);
            self.lemma_treasury_bridge(treasury_address@);
        }
        let pool_spot_taken = find_pool(&self.pools, &pool_address).is_some() || treasury_in_use(
            &self.pools,
            &pool_address,
        );
        let treasury_spot_taken = find_pool(&self.pools, &treasury_address).is_some()
            || treasury_in_use(&self.pools, &treasury_address);
        if pool_spot_taken || treasury_spot_taken || pool_address == treasury_address {
            return Err(VestingError::DuplicateCompany);
        }
        let entry = PoolEntry {
            address: pool_address,
            account: VestingAccount {
                owner: signer,
                mint,
                treasury_token_account: treasury_address,
                company_name,
                treasury_bump,
                bump,
            },
            treasury_balance: 0,
        };
        let ghost pre = self@;
        let ghost pre_pools = self.pools@;
        let ghost new_pool = entry.model();
        let mut pools: Vec<PoolEntry> = Vec::new();
        core::mem::swap(&mut self.pools, &mut pools);
        pools.push(entry);
        core::mem::swap(&mut self.pools, &mut pools);
        proof {
            self.view_facts();
            assert(self.pools@ == pre_pools.push(
                PoolEntry {
                    address: pool_address,
                    account: VestingAccount {
                        owner: signer,
                        mint,
                        treasury_token_account: treasury_address,
                        company_name: company_name,
                        treasury_bump,
                        bump,
                    },
                    treasury_balance: 0u64,
                },
            ));
            assert(self@.grants =~= pre.grants);
            assert forall|i: int| 0 <= i < self@.pools.len() implies self@.pools[i]
                == pre.pools.push(new_pool)[i] by {
                assert(self@.pools[i] == self.pools@[i].model());
                if i < pre_pools.len() {
                    assert(self.pools@[i] == pre_pools[i]);
                    assert(pre.pools[i] == pre_pools[i].model());
                }
            }
            assert(self@.pools =~= pre.pools.push(new_pool));
            use_type_invariant(&*self);
            self.lemma_engine_wf();
        }
        Ok(pool_address)
    }

    /// Creates an employee's grant against a pool: only the pool's owner may
    /// create one, the schedule must be ordered, and the derived grant
    /// address must be free; nothing is withdrawn at creation and no tokens
    /// move (the treasury is funded by separate deposits).
    pub fn create_employee_account(
        &mut self,
        owner: Address,
        beneficiary: Address,
        pool_address: Address,
        start_time: i64,
        end_time: i64,
        total_amount: u64,
        cliff_time: i64,
    ) -> (r: Result<Address, VestingError>)
        ensures
            spec_create_grant(
                old(self)@,
                final(self)@,
                owner@,
                beneficiary@,
                pool_address@,
                start_time as int,
                end_time as int,
                total_amount as int,
                cliff_time as int,
                r,
            ),
            spec_engine_wf(final(self)@),
    {
        proof {
            use_type_invariant(&*self);
            self.view_facts();
            self.lemma_engine_wf();
            self.lemma_pool_bridge(pool_address@);
        }
        let pool_index = match find_pool(&self.pools, &pool_address) {
            None => {
                return Err(VestingError::AccountMismatch);
            },
            Some(i) => i,
        };
        proof {
            self.lemma_pool_at(pool_index as int);
        }
        if !(owner == self.pools[pool_index].account.owner) {
            return Err(VestingError::Unauthorized);
        }
        if !(start_time <= cliff_time && cliff_time <= end_time && start_time < end_time) {
            return Err(VestingError::InvalidSchedule);
        }
        let seeds = grant_seeds(&beneficiary, &pool_address);
        let (grant_address, bump) = match derive_address(&self.program_id, &seeds) {
            None => {
                return Err(VestingError::AddressSpaceExhausted);
            },
            Some(found) => found,
        };
        proof {
            self.lemma_grant_bridge(grant_address@);
        }
        if find_grant(&self.grants, &grant_address).is_some() {
            return Err(VestingError::DuplicateGrant);
        }
        let entry = GrantEntry {
            address: grant_address,
            account: EmployeeAccount {
                beneficiary,
                start_time,
                end_time,
                cliff_time,
                vesting_account: pool_address,
                total_amount,
                total_withdrawn: 0,
                bump,
            },
        };
        let ghost pre = self@;
        let ghost pre_grants = self.grants@;
        let ghost new_grant = entry.model();
        let mut grants: Vec<GrantEntry> = Vec::new();
        core::mem::swap(&mut self.grants, &mut grants);
        grants.push(entry);
        core::mem::swap(&mut self.grants, &mut grants);
        proof {
            self.view_facts();
            assert(self.grants@ == pre_grants.push(entry));
            assert(self@.pools =~= pre.pools);
            assert forall|i: int| 0 <= i < self@.grants.len() implies self@.grants[i]
                == pre.grants.push(new_grant)[i] by {
                assert(self@.grants[i] == self.grants@[i].model());
                if i < pre_grants.len() {
                    assert(self.grants@[i] == pre_grants[i]);
                    assert(pre.grants[i] == pre_grants[i].model());
                }
            }
            assert(self@.grants =~= pre.grants.push(new_grant));
            use_type_invariant(&*self);
            self.lemma_engine_wf();
        }
        Ok(grant_address)
    }

    /// Credits a deposit to a pool's treasury custody account. Funding is
    /// external to the engine: this records that the deposit reached the
    /// treasury, so later claims can settle against it.
    pub fn deposit(&mut self, pool_address: &Address, amount: u64) -> (r: Result<
        (),
        VestingError,
    >)
        ensures
            spec_deposit(old(self)@, final(self)@, pool_address@, amount as int, r),
            spec_engine_wf(final(self)@),
    {
        proof {
            use_type_invariant(&*self);
            self.view_facts();
            self.lemma_engine_wf();
            self.lemma_pool_bridge(pool_address@);
        }
        let pool_index = match find_pool(&self.pools, pool_address) {
            None => {
                return Err(VestingError::AccountMismatch);
            },
            Some(i) => i,
        };
        proof {
            self.lemma_pool_at(pool_index as int);
        }
        let balance = self.pools[pool_index].treasury_balance;
        if amount > u64::MAX - balance {
            return Err(VestingError::InsufficientTreasuryBalance);
        }
        let ghost pre = self@;
        let ghost pre_pools = self.pools@;
        let mut pools: Vec<PoolEntry> = Vec::new();
        core::mem::swap(&mut self.pools, &mut pools);
        let mut entry = pools.remove(pool_index);
        entry.treasury_balance = balance + amount;
        pools.insert(pool_index, entry);
        core::mem::swap(&mut self.pools, &mut pools);
        proof {
            self.view_facts();
            assert(self@.grants =~= pre.grants);
            let debited = spec_pools_debited(pre.pools, pool_address@, -(amount as int));
            assert forall|i: int| 0 <= i < self@.pools.len() implies self@.pools[i]
                == debited[i] by {
                assert(self@.pools[i] == self.pools@[i].model());
                assert(pre.pools[i] == pre_pools[i].model());
                if i != pool_index as int {
                    assert(self.pools@[i] == pre_pools[i]);
                    assert(pre_pools[i].model().address != pre_pools[pool_index as int].model().address);
                }
            }
            assert(self@.pools =~= debited);
            use_type_invariant(&*self);
            self.lemma_engine_wf();
        }
        Ok(())
    }

    /// Settles a claim: validates the supplied addresses against the stored
    /// and re-derived ones, authenticates the caller as the grant's
    /// beneficiary, computes the payout for `now`, and either settles a zero
    /// payout as a no-op or moves the payout out of the treasury while
    /// crediting the grant's withdrawal state, as one unit of work.
    pub fn claim_tokens(
        &mut self,
        caller: Address,
        grant_address: Address,
        pool_address: Address,
        now: i64,
    ) -> (r: Result<u64, VestingError>)
        ensures
            spec_claim(
                old(self)@,
                final(self)@,
                caller@,
                grant_address@,
                pool_address@,
                now as int,
                r,
            ),
            // A positive payout brings the withdrawn total to exactly the
            // unlocked amount at `now`.
            r matches Ok(p) ==> (old(self)@.has_grant_at(grant_address@) && p > 0
                ==> final(self)@.grant_at(grant_address@).withdrawn == spec_unlocked(
                now as int,
                old(self)@.grant_at(grant_address@).start_time,
                old(self)@.grant_at(grant_address@).end_time,
                old(self)@.grant_at(grant_address@).cliff_time,
                old(self)@.grant_at(grant_address@).total,
            )),
            // The withdrawal state never exceeds any grant's total.
            forall|i: int|
                #![trigger final(self)@.grants[i]]
                0 <= i < final(self)@.grants.len()
                    ==> 0 <= final(self)@.grants[i].withdrawn <= final(self)@.grants[i].total,
            spec_engine_wf(final(self)@),
    {
        proof {
            use_type_invariant(&*self);
            self.view_facts();
            self.lemma_engine_wf();
            self.lemma_grant_bridge(grant_address@);
            assert forall|i: int|
                #![trigger self@.grants[i]]
                0 <= i < self@.grants.len() implies 0 <= self@.grants[i].withdrawn
                <= self@.grants[i].total by {
                assert(self@.grants[i] == self.grants@[i].model());
                assert(spec_grant_wf(self.grants@[i].model(), self.program_id@));
            }
        }
        let grant_index = match find_grant(&self.grants, &grant_address) {
            None => {
                return Err(VestingError::AddressMismatch);
            },
            Some(i) => i,
        };
        proof {
            self.lemma_grant_at(grant_index as int);
            assert(spec_grant_wf(self.grants@[grant_index as int].model(), self.program_id@));
        }
        let grant = self.grants[grant_index].account;
        // Defend against substitution: the supplied address must re-derive
        // from the stored record's beneficiary and pool.
        let seeds = grant_seeds(&grant.beneficiary, &grant.vesting_account);
        let rederived = derive_address(&self.program_id, &seeds);
        let address_checks_out = match rederived {
            None => false,
            Some(found) => found.0 == grant_address && found.1 == grant.bump,
        };
        if !address_checks_out {
            // Unreachable for any record the engine created: the stored
            // record re-derives to its own address.
            proof {
                assert(self.grants@[grant_index as int].model().address == grant_address@);
                assert(false);
            }
            return Err(VestingError::AddressMismatch);
        }
        if !(caller == grant.beneficiary) {
            return Err(VestingError::Unauthorized);
        }
        if !(grant.vesting_account == pool_address) {
            return Err(VestingError::AccountMismatch);
        }
        proof {
            self.lemma_pool_bridge(pool_address@);
        }
        let pool_index = match find_pool(&self.pools, &pool_address) {
            None => {
                return Err(VestingError::AccountMismatch);
            },
            Some(i) => i,
        };
        proof {
            self.lemma_pool_at(pool_index as int);
        }
        let payout = claimable_amount(
            now,
            grant.start_time,
            grant.end_time,
            grant.cliff_time,
            grant.total_amount,
            grant.total_withdrawn,
        );
        if payout == 0 {
            return Ok(0);
        }
        proof {
            lemma_unlocked_bounds(
                now as int,
                grant.start_time as int,
                grant.end_time as int,
                grant.cliff_time as int,
                grant.total_amount as int,
            );
        }
        if payout > grant.total_amount - grant.total_withdrawn {
            // Unreachable while the records are consistent: the payout is
            // clamped by the schedule. Abort rather than clamp silently.
            proof {
                assert(false);
            }
            return Err(VestingError::InternalInvariantViolation);
        }
        let balance = self.pools[pool_index].treasury_balance;
        if balance < payout {
            return Err(VestingError::InsufficientTreasuryBalance);
        }
        let ghost pre = self@;
        let ghost pre_grants = self.grants@;
        let ghost pre_pools = self.pools@;
        let new_withdrawn = grant.total_withdrawn + payout;
        let mut grants: Vec<GrantEntry> = Vec::new();
        core::mem::swap(&mut self.grants, &mut grants);
        let mut grant_entry = grants.remove(grant_index);
        grant_entry.account.total_withdrawn = new_withdrawn;
        grants.insert(grant_index, grant_entry);
        core::mem::swap(&mut self.grants, &mut grants);
        let mut pools: Vec<PoolEntry> = Vec::new();
        core::mem::swap(&mut self.pools, &mut pools);
        let mut pool_entry = pools.remove(pool_index);
        pool_entry.treasury_balance = balance - payout;
        pools.insert(pool_index, pool_entry);
        core::mem::swap(&mut self.pools, &mut pools);
        proof {
            self.view_facts();
            let settled = spec_grants_settled(pre.grants, grant_address@, payout as int);
            assert forall|i: int| 0 <= i < self@.grants.len() implies self@.grants[i]
                == settled[i] by {
                assert(self@.grants[i] == self.grants@[i].model());
                assert(pre.grants[i] == pre_grants[i].model());
                if i != grant_index as int {
                    assert(self.grants@[i] == pre_grants[i]);
                    assert(pre_grants[i].model().address != pre_grants[
                        grant_index as int
                    ].model().address);
                }
            }
            assert(self@.grants =~= settled);
            let debited = spec_pools_debited(pre.pools, pool_address@, payout as int);
            assert forall|i: int| 0 <= i < self@.pools.len() implies self@.pools[i]
                == debited[i] by {
                assert(self@.pools[i] == self.pools@[i].model());
                assert(pre.pools[i] == pre_pools[i].model());
                if i != pool_index as int {
                    assert(self.pools@[i] == pre_pools[i]);
                    assert(pre_pools[i].model().address != pre_pools[
                        pool_index as int
                    ].model().address);
                }
            }
            assert(self@.pools =~= debited);
            use_type_invariant(&*self);
            self.lemma_engine_wf();
            self.lemma_grant_at(grant_index as int);
            assert forall|i: int|
                #![trigger self@.grants[i]]
                0 <= i < self@.grants.len() implies 0 <= self@.grants[i].withdrawn
                <= self@.grants[i].total by {
                assert(self@.grants[i] == self.grants@[i].model());
                assert(spec_grant_wf(self.grants@[i].model(), self.program_id@));
            }
        }
        Ok(payout)
    }

    /// The pool record at `pool_address`, if one exists.
    pub fn get_vesting_account(&self, pool_address: &Address) -> (r: Option<&VestingAccount>)
        ensures
            match r {
                Some(account) => self@.has_pool_at(pool_address@) && {
                    let p = self@.pool_at(pool_address@);
                    &&& account.owner@ == p.owner
                    &&& account.mint@ == p.mint
                    &&& account.treasury_token_account@ == p.treasury
                    &&& account.company_name@ == p.company_name
                    &&& account.treasury_bump == p.treasury_bump
                    &&& account.bump == p.bump
                },
                None => !self@.has_pool_at(pool_address@),
            },
    {
        proof {
            use_type_invariant(&*self);
            self.view_facts();
            self.lemma_pool_bridge(pool_address@);
        }
        match find_pool(&self.pools, pool_address) {
            None => None,
            Some(i) => {
                proof {
                    self.lemma_pool_at(i as int);
                }
                Some(&self.pools[i].account)
            },
        }
    }

    /// The grant record at `grant_address`, if one exists.
    pub fn get_employee_account(&self, grant_address: &Address) -> (r: Option<EmployeeAccount>)
        ensures
            match r {
                Some(account) => self@.has_grant_at(grant_address@) && {
                    let g = self@.grant_at(grant_address@);
                    &&& account.beneficiary@ == g.beneficiary
                    &&& account.vesting_account@ == g.pool
                    &&& account.start_time == g.start_time
                    &&& account.end_time == g.end_time
                    &&& account.cliff_time == g.cliff_time
                    &&& account.total_amount == g.total
                    &&& account.total_withdrawn == g.withdrawn
                    &&& account.bump == g.bump
                },
                None => !self@.has_grant_at(grant_address@),
            },
    {
        proof {
            use_type_invariant(&*self);
            self.view_facts();
            self.lemma_grant_bridge(grant_address@);
        }
        match find_grant(&self.grants, grant_address) {
            None => None,
            Some(i) => {
                proof {
                    self.lemma_grant_at(i as int);
                }
                Some(self.grants[i].account)
            },
        }
    }

    /// The balance of the treasury of the pool at `pool_address`, if the
    /// pool exists.
    pub fn treasury_balance(&self, pool_address: &Address) -> (r: Option<u64>)
        ensures
            match r {
                Some(balance) => self@.has_pool_at(pool_address@) && balance == self@.pool_at(
                    pool_address@,
                ).balance,
                None => !self@.has_pool_at(pool_address@),
            },
    {
        proof {
            use_type_invariant(&*self);
            self.view_facts();
            self.lemma_pool_bridge(pool_address@);
        }
        match find_pool(&self.pools, pool_address) {
            None => None,
            Some(i) => {
                proof {
                    self.lemma_pool_at(i as int);
                }
                Some(self.pools[i].treasury_balance)
            },
        }
    }
}

} // verus!
