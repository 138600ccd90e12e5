use vesting::address::Address;
use vesting::engine::VestingEngine;
use vesting::error::VestingError;

fn addr(tag: u8) -> Address {
    Address { bytes: [tag; 32] }
}

fn mint_bytes() -> Vec<u8> {
    vec![3u8; 32]
}

fn engine() -> VestingEngine {
    VestingEngine::new(addr(9))
}

#[test]
fn create_pool_and_read_it_back() {
    let mut engine = engine();
    assert_eq!(engine.program_id(), addr(9));
    let owner = addr(1);
    let pool = engine
        .create_vesting_account(owner, mint_bytes(), b"Acme".to_vec())
        .unwrap();
    let account = engine.get_vesting_account(&pool).unwrap();
    assert_eq!(account.owner, owner);
    assert_eq!(account.company_name, b"Acme".to_vec());
    assert_eq!(engine.treasury_balance(&pool), Some(0));
    // the treasury is a distinct derived account, owned by the pool
    assert_ne!(account.treasury_token_account, pool);
}

#[test]
fn derived_addresses_depend_on_the_name() {
    let mut engine = engine();
    let first = engine
        .create_vesting_account(addr(1), mint_bytes(), b"Acme".to_vec())
        .unwrap();
    // a different name lands at a different address, so this succeeds
    let second = engine
        .create_vesting_account(addr(1), mint_bytes(), b"Globex".to_vec())
        .unwrap();
    assert_ne!(first, second);
}

#[test]
fn derivation_is_deterministic() {
    let mut one = engine();
    let mut two = engine();
    let a = one
        .create_vesting_account(addr(1), mint_bytes(), b"Acme".to_vec())
        .unwrap();
    let b = two
        .create_vesting_account(addr(4), mint_bytes(), b"Acme".to_vec())
        .unwrap();
    assert_eq!(a, b);
}

#[test]
fn duplicate_company_is_rejected() {
    let mut engine = engine();
    engine
        .create_vesting_account(addr(1), mint_bytes(), b"Acme".to_vec())
        .unwrap();
    let again = engine.create_vesting_account(addr(2), mint_bytes(), b"Acme".to_vec());
    assert!(matches!(again, Err(VestingError::DuplicateCompany)));
}

#[test]
fn malformed_token_kind_is_rejected() {
    let mut engine = engine();
    let result = engine.create_vesting_account(addr(1), vec![3u8; 31], b"Acme".to_vec());
    assert!(matches!(result, Err(VestingError::InvalidTokenKind)));
}

#[test]
fn oversized_seed_exhausts_the_address_search() {
    let mut engine = engine();
    // a 40-byte name is within the record bound but beyond what the
    // derivation accepts as one seed, so no address can be found
    let result = engine.create_vesting_account(addr(1), mint_bytes(), vec![7u8; 40]);
    assert!(matches!(result, Err(VestingError::AddressSpaceExhausted)));
}

#[test]
fn grant_creation_checks_the_pool_owner() {
    let mut engine = engine();
    let owner = addr(1);
    let pool = engine
        .create_vesting_account(owner, mint_bytes(), b"Acme".to_vec())
        .unwrap();
    let stranger = addr(2);
    let result =
        engine.create_employee_account(stranger, addr(5), pool, 0, 1000, 1000, 100);
    assert!(matches!(result, Err(VestingError::Unauthorized)));
}

#[test]
fn grant_creation_checks_the_schedule() {
    let mut engine = engine();
    let owner = addr(1);
    let pool = engine
        .create_vesting_account(owner, mint_bytes(), b"Acme".to_vec())
        .unwrap();
    // cliff before start
    let result = engine.create_employee_account(owner, addr(5), pool, 100, 1000, 1000, 0);
    assert!(matches!(result, Err(VestingError::InvalidSchedule)));
    // empty schedule
    let result = engine.create_employee_account(owner, addr(5), pool, 100, 100, 1000, 100);
    assert!(matches!(result, Err(VestingError::InvalidSchedule)));
}

#[test]
fn grant_creation_checks_the_pool_exists() {
    let mut engine = engine();
    let result =
        engine.create_employee_account(addr(1), addr(5), addr(6), 0, 1000, 1000, 100);
    assert!(matches!(result, Err(VestingError::AccountMismatch)));
}

#[test]
fn duplicate_grant_is_rejected() {
    let mut engine = engine();
    let owner = addr(1);
    let beneficiary = addr(5);
    let pool = engine
        .create_vesting_account(owner, mint_bytes(), b"Acme".to_vec())
        .unwrap();
    engine
        .create_employee_account(owner, beneficiary, pool, 0, 1000, 1000, 100)
        .unwrap();
    let again = engine.create_employee_account(owner, beneficiary, pool, 5, 2000, 400, 10);
    assert!(matches!(again, Err(VestingError::DuplicateGrant)));
}

#[test]
fn grant_starts_with_nothing_withdrawn() {
    let mut engine = engine();
    let owner = addr(1);
    let beneficiary = addr(5);
    let pool = engine
        .create_vesting_account(owner, mint_bytes(), b"Acme".to_vec())
        .unwrap();
    let grant = engine
        .create_employee_account(owner, beneficiary, pool, 0, 1000, 1000, 100)
        .unwrap();
    let account = engine.get_employee_account(&grant).unwrap();
    assert_eq!(account.total_withdrawn, 0);
    assert_eq!(account.total_amount, 1000);
    assert_eq!(account.beneficiary, beneficiary);
    assert_eq!(account.vesting_account, pool);
}

#[test]
fn claim_rejects_an_unknown_grant_address() {
    let mut engine = engine();
    let result = engine.claim_tokens(addr(5), addr(6), addr(7), 100);
    assert!(matches!(result, Err(VestingError::AddressMismatch)));
}

#[test]
fn claim_rejects_a_caller_other_than_the_beneficiary() {
    let mut engine = engine();
    let owner = addr(1);
    let beneficiary = addr(5);
    let pool = engine
        .create_vesting_account(owner, mint_bytes(), b"Acme".to_vec())
        .unwrap();
    engine.deposit(&pool, 1000).unwrap();
    let grant = engine
        .create_employee_account(owner, beneficiary, pool, 0, 1000, 1000, 100)
        .unwrap();
    let stranger = addr(2);
    let result = engine.claim_tokens(stranger, grant, pool, 500);
    assert!(matches!(result, Err(VestingError::Unauthorized)));
    // nothing was mutated
    assert_eq!(engine.get_employee_account(&grant).unwrap().total_withdrawn, 0);
    assert_eq!(engine.treasury_balance(&pool), Some(1000));
}

#[test]
fn claim_rejects_a_mismatched_pool() {
    let mut engine = engine();
    let owner = addr(1);
    let beneficiary = addr(5);
    let pool = engine
        .create_vesting_account(owner, mint_bytes(), b"Acme".to_vec())
        .unwrap();
    let other_pool = engine
        .create_vesting_account(owner, mint_bytes(), b"Globex".to_vec())
        .unwrap();
    let grant = engine
        .create_employee_account(owner, beneficiary, pool, 0, 1000, 1000, 100)
        .unwrap();
    let result = engine.claim_tokens(beneficiary, grant, other_pool, 500);
    assert!(matches!(result, Err(VestingError::AccountMismatch)));
}

#[test]
fn claim_does_not_overdraw_the_treasury() {
    let mut engine = engine();
    let owner = addr(1);
    let beneficiary = addr(5);
    let pool = engine
        .create_vesting_account(owner, mint_bytes(), b"Acme".to_vec())
        .unwrap();
    let grant = engine
        .create_employee_account(owner, beneficiary, pool, 0, 1000, 1000, 100)
        .unwrap();
    // the treasury was never funded: a positive payout must not settle
    let result = engine.claim_tokens(beneficiary, grant, pool, 500);
    assert!(matches!(result, Err(VestingError::InsufficientTreasuryBalance)));
    assert_eq!(engine.get_employee_account(&grant).unwrap().total_withdrawn, 0);
}

#[test]
fn claim_twice_at_one_instant_pays_once() {
    let mut engine = engine();
    let owner = addr(1);
    let beneficiary = addr(5);
    let pool = engine
        .create_vesting_account(owner, mint_bytes(), b"Acme".to_vec())
        .unwrap();
    engine.deposit(&pool, 1000).unwrap();
    let grant = engine
        .create_employee_account(owner, beneficiary, pool, 0, 1000, 1000, 100)
        .unwrap();
    let first = engine.claim_tokens(beneficiary, grant, pool, 500).unwrap();
    assert_eq!(first, 500);
    let second = engine.claim_tokens(beneficiary, grant, pool, 500).unwrap();
    assert_eq!(second, 0);
    assert_eq!(engine.get_employee_account(&grant).unwrap().total_withdrawn, 500);
    assert_eq!(engine.treasury_balance(&pool), Some(500));
}

#[test]
fn withdrawn_tracks_the_unlocked_amount_across_claims() {
    let mut engine = engine();
    let owner = addr(1);
    let beneficiary = addr(5);
    let pool = engine
        .create_vesting_account(owner, mint_bytes(), b"Acme".to_vec())
        .unwrap();
    engine.deposit(&pool, 1000).unwrap();
    let grant = engine
        .create_employee_account(owner, beneficiary, pool, 0, 1000, 1000, 100)
        .unwrap();
    for now in [100i64, 250, 400, 777, 1000] {
        engine.claim_tokens(beneficiary, grant, pool, now).unwrap();
        let withdrawn = engine.get_employee_account(&grant).unwrap().total_withdrawn;
        assert_eq!(withdrawn, vesting::schedule::unlocked_amount(now, 0, 1000, 100, 1000));
        assert!(withdrawn <= 1000);
    }
}

#[test]
fn deposit_rejects_an_unknown_pool() {
    let mut engine = engine();
    let result = engine.deposit(&addr(6), 100);
    assert!(matches!(result, Err(VestingError::AccountMismatch)));
}

#[test]
fn deposit_rejects_what_the_treasury_cannot_hold() {
    let mut engine = engine();
    let pool = engine
        .create_vesting_account(addr(1), mint_bytes(), b"Acme".to_vec())
        .unwrap();
    engine.deposit(&pool, u64::MAX).unwrap();
    let result = engine.deposit(&pool, 1);
    assert!(matches!(result, Err(VestingError::InsufficientTreasuryBalance)));
    assert_eq!(engine.treasury_balance(&pool), Some(u64::MAX));
}

#[test]
fn end_to_end_acme_vesting() {
    let mut engine = engine();
    let owner = addr(1);
    let beneficiary = addr(5);
    let pool = engine
        .create_vesting_account(owner, mint_bytes(), b"Acme".to_vec())
        .unwrap();
    engine.deposit(&pool, 1000).unwrap();
    let grant = engine
        .create_employee_account(owner, beneficiary, pool, 0, 1000, 1000, 100)
        .unwrap();

    // before the cliff: nothing
    assert_eq!(engine.claim_tokens(beneficiary, grant, pool, 50).unwrap(), 0);
    assert_eq!(engine.get_employee_account(&grant).unwrap().total_withdrawn, 0);

    // at the cliff: 10% elapsed
    assert_eq!(engine.claim_tokens(beneficiary, grant, pool, 100).unwrap(), 100);
    assert_eq!(engine.get_employee_account(&grant).unwrap().total_withdrawn, 100);

    // mid-schedule: 55% unlocked, minus what was paid
    assert_eq!(engine.claim_tokens(beneficiary, grant, pool, 550).unwrap(), 450);
    assert_eq!(engine.get_employee_account(&grant).unwrap().total_withdrawn, 550);

    // past the end: the remainder
    assert_eq!(engine.claim_tokens(beneficiary, grant, pool, 2000).unwrap(), 450);
    assert_eq!(engine.get_employee_account(&grant).unwrap().total_withdrawn, 1000);

    // and forever after: nothing
    assert_eq!(engine.claim_tokens(beneficiary, grant, pool, 3000).unwrap(), 0);
    assert_eq!(engine.claim_tokens(beneficiary, grant, pool, i64::MAX).unwrap(), 0);
    assert_eq!(engine.treasury_balance(&pool), Some(0));
}

#[test]
fn two_grants_against_one_pool() {
    let mut engine = engine();
    let owner = addr(1);
    let first = addr(5);
    let second = addr(6);
    let pool = engine
        .create_vesting_account(owner, mint_bytes(), b"Acme".to_vec())
        .unwrap();
    engine.deposit(&pool, 300).unwrap();
    let grant_one = engine
        .create_employee_account(owner, first, pool, 0, 100, 200, 0)
        .unwrap();
    let grant_two = engine
        .create_employee_account(owner, second, pool, 0, 100, 100, 0)
        .unwrap();
    assert_ne!(grant_one, grant_two);
    assert_eq!(engine.claim_tokens(first, grant_one, pool, 100).unwrap(), 200);
    assert_eq!(engine.claim_tokens(second, grant_two, pool, 100).unwrap(), 100);
    assert_eq!(engine.treasury_balance(&pool), Some(0));
}

#[test]
fn empty_company_name_is_a_valid_key() {
    let mut engine = engine();
    let pool = engine
        .create_vesting_account(addr(1), mint_bytes(), Vec::new())
        .unwrap();
    assert!(engine.get_vesting_account(&pool).is_some());
    let again = engine.create_vesting_account(addr(1), mint_bytes(), Vec::new());
    assert!(matches!(again, Err(VestingError::DuplicateCompany)));
}
