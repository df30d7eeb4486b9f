use escrow::address::{escrow_seeds_of, find_escrow_address, le_bytes_of, Identity, PROGRAM_ID};
use escrow::errors::EscrowError;
use escrow::instructions::cancel::Cancel;
use escrow::instructions::claim::Claim;
use escrow::instructions::initialize::{open_escrow, Initialize};
use escrow::ledger::Ledger;
use escrow::state::Escrow;
use escrow::{cancel, claim, initialize};

fn id(n: u8) -> Identity {
    Identity::new([n; 32])
}

fn funded(who: &Identity, lamports: u64) -> Ledger {
    let mut ledger = Ledger::new();
    ledger.credit(who, lamports).unwrap();
    ledger
}

#[test]
fn create_claim_then_cancel_not_found() {
    let d = id(1);
    let r = id(2);
    let mut ledger = funded(&d, 1000);
    let accounts = Initialize { depositor: d, recipient: r };
    let address = initialize(&mut ledger, &accounts, 300, 7, 1_700_000_000).unwrap();
    assert_eq!(ledger.balance(&d), 700);
    let record = ledger.record(&d, 7).unwrap();
    assert_eq!(record.amount, 300);
    assert!(record.depositor.same_as(&d));
    assert!(record.recipient.same_as(&r));
    assert_eq!(record.escrow_id, 7);
    assert_eq!(record.created_at, 1_700_000_000);
    let (expected, bump) = find_escrow_address(&d, 7).unwrap();
    assert!(address.same_as(&expected));
    assert_eq!(record.bump, bump);

    assert_eq!(claim(&mut ledger, &Claim { caller: r, depositor: d }, 7), Ok(()));
    assert_eq!(ledger.balance(&r), 300);
    assert!(ledger.record(&d, 7).is_none());

    assert_eq!(
        cancel(&mut ledger, &Cancel { caller: d, depositor: d }, 7),
        Err(EscrowError::AccountNotInitialized)
    );
    assert_eq!(ledger.balance(&d), 700);
    assert_eq!(ledger.balance(&r), 300);
}

#[test]
fn claim_by_depositor_is_unauthorized() {
    let d = id(1);
    let r = id(2);
    let mut ledger = funded(&d, 1000);
    initialize(&mut ledger, &Initialize { depositor: d, recipient: r }, 50, 9, 0).unwrap();
    assert_eq!(ledger.balance(&d), 950);
    assert_eq!(
        claim(&mut ledger, &Claim { caller: d, depositor: d }, 9),
        Err(EscrowError::UnauthorizedClaim)
    );
    assert_eq!(ledger.balance(&d), 950);
    assert_eq!(ledger.balance(&r), 0);
    assert_eq!(ledger.record(&d, 9).unwrap().amount, 50);
}

#[test]
fn zero_amount_is_invalid() {
    let d = id(1);
    let mut ledger = funded(&d, 1000);
    let r = initialize(&mut ledger, &Initialize { depositor: d, recipient: id(2) }, 0, 1, 0);
    assert!(matches!(r, Err(EscrowError::InvalidAmount)));
    assert_eq!(ledger.balance(&d), 1000);
    assert!(ledger.record(&d, 1).is_none());
}

#[test]
fn amount_over_balance_is_insufficient() {
    let d = id(1);
    let mut ledger = funded(&d, 100);
    let r = initialize(&mut ledger, &Initialize { depositor: d, recipient: id(2) }, 101, 1, 0);
    assert!(matches!(r, Err(EscrowError::InsufficientBalance)));
    assert_eq!(ledger.balance(&d), 100);
    assert!(ledger.record(&d, 1).is_none());
}

#[test]
fn depositor_without_account_is_insufficient() {
    let d = id(1);
    let mut ledger = Ledger::new();
    let r = initialize(&mut ledger, &Initialize { depositor: d, recipient: id(2) }, 1, 1, 0);
    assert!(matches!(r, Err(EscrowError::InsufficientBalance)));
    assert!(ledger.record(&d, 1).is_none());
}

#[test]
fn whole_balance_can_be_escrowed() {
    let d = id(1);
    let mut ledger = funded(&d, 100);
    assert!(initialize(&mut ledger, &Initialize { depositor: d, recipient: id(2) }, 100, 1, 0).is_ok());
    assert_eq!(ledger.balance(&d), 0);
}

#[test]
fn same_escrow_id_twice_is_in_use() {
    let d = id(1);
    let mut ledger = funded(&d, 1000);
    let accounts = Initialize { depositor: d, recipient: id(2) };
    initialize(&mut ledger, &accounts, 10, 3, 0).unwrap();
    let r = initialize(&mut ledger, &accounts, 20, 3, 0);
    assert!(matches!(r, Err(EscrowError::AccountAlreadyInUse)));
    assert_eq!(ledger.balance(&d), 990);
    assert_eq!(ledger.record(&d, 3).unwrap().amount, 10);
}

#[test]
fn cancel_by_other_is_unauthorized() {
    let d = id(1);
    let r = id(2);
    let mut ledger = funded(&d, 1000);
    initialize(&mut ledger, &Initialize { depositor: d, recipient: r }, 40, 5, 0).unwrap();
    assert_eq!(
        cancel(&mut ledger, &Cancel { caller: r, depositor: d }, 5),
        Err(EscrowError::UnauthorizedCancel)
    );
    assert_eq!(ledger.balance(&d), 960);
    assert_eq!(ledger.balance(&r), 0);
    assert_eq!(ledger.record(&d, 5).unwrap().amount, 40);
}

#[test]
fn claim_by_stranger_is_unauthorized() {
    let d = id(1);
    let mut ledger = funded(&d, 1000);
    initialize(&mut ledger, &Initialize { depositor: d, recipient: id(2) }, 40, 5, 0).unwrap();
    assert_eq!(
        claim(&mut ledger, &Claim { caller: id(3), depositor: d }, 5),
        Err(EscrowError::UnauthorizedClaim)
    );
    assert_eq!(ledger.balance(&id(3)), 0);
    assert!(ledger.record(&d, 5).is_some());
}

#[test]
fn cancel_returns_amount_to_depositor() {
    let d = id(1);
    let r = id(2);
    let mut ledger = funded(&d, 1000);
    initialize(&mut ledger, &Initialize { depositor: d, recipient: r }, 250, 4, 0).unwrap();
    assert_eq!(ledger.balance(&d), 750);
    assert_eq!(cancel(&mut ledger, &Cancel { caller: d, depositor: d }, 4), Ok(()));
    assert_eq!(ledger.balance(&d), 1000);
    assert_eq!(ledger.balance(&r), 0);
    assert!(ledger.record(&d, 4).is_none());
    assert_eq!(
        claim(&mut ledger, &Claim { caller: r, depositor: d }, 4),
        Err(EscrowError::AccountNotInitialized)
    );
}

#[test]
fn second_claim_is_not_found() {
    let d = id(1);
    let r = id(2);
    let mut ledger = funded(&d, 1000);
    initialize(&mut ledger, &Initialize { depositor: d, recipient: r }, 10, 1, 0).unwrap();
    assert_eq!(claim(&mut ledger, &Claim { caller: r, depositor: d }, 1), Ok(()));
    assert_eq!(
        claim(&mut ledger, &Claim { caller: r, depositor: d }, 1),
        Err(EscrowError::AccountNotInitialized)
    );
    assert_eq!(ledger.balance(&r), 10);
}

#[test]
fn recipient_may_equal_depositor() {
    let d = id(1);
    let mut ledger = funded(&d, 1000);
    initialize(&mut ledger, &Initialize { depositor: d, recipient: d }, 100, 1, 0).unwrap();
    assert_eq!(claim(&mut ledger, &Claim { caller: d, depositor: d }, 1), Ok(()));
    assert_eq!(ledger.balance(&d), 1000);
}

#[test]
fn claim_that_would_overflow_fails() {
    let d = id(1);
    let r = id(2);
    let mut ledger = funded(&d, 10);
    ledger.credit(&r, u64::MAX - 5).unwrap();
    initialize(&mut ledger, &Initialize { depositor: d, recipient: r }, 10, 1, 0).unwrap();
    assert_eq!(
        claim(&mut ledger, &Claim { caller: r, depositor: d }, 1),
        Err(EscrowError::LamportsOverflow)
    );
    assert_eq!(ledger.balance(&r), u64::MAX - 5);
    assert!(ledger.record(&d, 1).is_some());
}

#[test]
fn distinct_ids_do_not_interfere() {
    let d = id(1);
    let r = id(2);
    let mut ledger = funded(&d, 1000);
    let accounts = Initialize { depositor: d, recipient: r };
    let a1 = initialize(&mut ledger, &accounts, 100, 1, 0).unwrap();
    let a2 = initialize(&mut ledger, &accounts, 200, 2, 0).unwrap();
    assert!(!a1.same_as(&a2));
    assert_eq!(ledger.balance(&d), 700);
    assert_eq!(claim(&mut ledger, &Claim { caller: r, depositor: d }, 1), Ok(()));
    assert_eq!(ledger.record(&d, 2).unwrap().amount, 200);
    assert_eq!(cancel(&mut ledger, &Cancel { caller: d, depositor: d }, 2), Ok(()));
    assert_eq!(ledger.balance(&d), 900);
    assert_eq!(ledger.balance(&r), 100);
}

#[test]
fn open_escrow_without_bump_fails() {
    let d = id(1);
    let mut ledger = funded(&d, 1000);
    let r = open_escrow(&mut ledger, &Initialize { depositor: d, recipient: id(2) }, 5, 1, 0, None);
    assert!(matches!(r, Err(EscrowError::NoViableBump)));
    assert_eq!(ledger.balance(&d), 1000);
}

#[test]
fn open_escrow_uses_given_address() {
    let d = id(1);
    let mut ledger = funded(&d, 1000);
    let given = id(9);
    let r = open_escrow(&mut ledger, &Initialize { depositor: d, recipient: id(2) }, 5, 1, 0, Some((given, 250)));
    assert!(r.unwrap().same_as(&given));
    assert_eq!(ledger.record(&d, 1).unwrap().bump, 250);
}

#[test]
fn address_matches_program_derivation() {
    let d = id(7);
    let (address, bump) = find_escrow_address(&d, 42).unwrap();
    let program = anchor_lang::prelude::Pubkey::new_from_array(PROGRAM_ID);
    let depositor = anchor_lang::prelude::Pubkey::new_from_array([7; 32]);
    let (expected, expected_bump) = anchor_lang::prelude::Pubkey::find_program_address(
        &[b"escrow", depositor.as_ref(), &42u64.to_le_bytes()],
        &program,
    );
    assert_eq!(address.bytes, expected.to_bytes());
    assert_eq!(bump, expected_bump);
    assert!(!address.same_as(&d));
    let (again, again_bump) = find_escrow_address(&d, 42).unwrap();
    assert!(again.same_as(&address));
    assert_eq!(again_bump, bump);
}

#[test]
fn seeds_and_le_bytes() {
    assert_eq!(le_bytes_of(0x0102030405060708), vec![8, 7, 6, 5, 4, 3, 2, 1]);
    let seeds = escrow_seeds_of(&id(3), 1);
    assert_eq!(seeds.len(), 3);
    assert_eq!(seeds[0], b"escrow".to_vec());
    assert_eq!(seeds[1], vec![3u8; 32]);
    assert_eq!(seeds[2], vec![1, 0, 0, 0, 0, 0, 0, 0]);
}

#[test]
fn identity_equality() {
    assert!(id(1).same_as(&id(1)));
    let mut b = [1u8; 32];
    b[31] = 2;
    assert!(!id(1).same_as(&Identity::new(b)));
}

#[test]
fn record_size_and_messages() {
    assert_eq!(Escrow::LEN, 97);
    assert_eq!(EscrowError::InvalidAmount.message(), "Amount must be greater than 0");
    assert_eq!(EscrowError::UnauthorizedClaim.message(), "Unauthorized: Only recipient can claim");
}

#[test]
fn debit_and_credit() {
    let a = id(1);
    let mut ledger = funded(&a, 10);
    assert_eq!(ledger.debit(&a, 11), Err(EscrowError::InsufficientBalance));
    assert_eq!(ledger.debit(&a, 4), Ok(()));
    assert_eq!(ledger.balance(&a), 6);
    assert_eq!(ledger.credit(&a, u64::MAX), Err(EscrowError::LamportsOverflow));
    assert_eq!(ledger.balance(&a), 6);
}
