//! Creating an escrow.
use vstd::prelude::*;
use crate::address::{derived_view, escrow_address, find_escrow_address, Identity};
use crate::errors::EscrowError;
use crate::ledger::Ledger;
use crate::state::Escrow;

verus! {

/// The parties of a new escrow.
#[derive(Clone, Copy, Debug)]
pub struct Initialize {
    /// The funding party; it signs the creation.
    pub depositor: Identity,
    /// The party that will be able to claim; any identity is accepted.
    pub recipient: Identity,
}

pub open spec fn address_view(r: Result<Identity, EscrowError>) -> Result<Seq<u8>, EscrowError> {
    match r {
        Ok(a) => Ok(a@),
        Err(e) => Err(e),
    }
}

/// What creating an escrow does, given the derived address and bump `derived`:
/// either one error with the ledger untouched, or the new record stored under
/// `(depositor, escrow_id)` and `amount` taken from the depositor.
pub open spec fn initialize_post(
    before: Ledger,
    after: Ledger,
    accounts: Initialize,
    amount: u64,
    escrow_id: u64,
    created_at: i64,
    derived: Option<(Seq<u8>, u8)>,
    r: Result<Seq<u8>, EscrowError>,
) -> bool {
    let key = (accounts.depositor@, escrow_id);
    let held = before.balance_of(accounts.depositor@);
    if amount == 0 {
        r == Err::<Seq<u8>, EscrowError>(EscrowError::InvalidAmount) && after == before
    } else {
        match derived {
            None => r == Err::<Seq<u8>, EscrowError>(EscrowError::NoViableBump) && after == before,
            Some(d) => if before.records().contains_key(key) {
                r == Err::<Seq<u8>, EscrowError>(EscrowError::AccountAlreadyInUse) && after == before
            } else if held < amount {
                r == Err::<Seq<u8>, EscrowError>(EscrowError::InsufficientBalance) && after == before
            } else {
                &&& r == Ok::<Seq<u8>, EscrowError>(d.0)
                &&& after.records() == before.records().insert(
                    key,
                    (Escrow {
                        depositor: accounts.depositor,
                        recipient: accounts.recipient,
                        amount,
                        bump: d.1,
                        escrow_id,
                        created_at,
                    }),
                )
                &&& after.balances() == before.balances().insert(accounts.depositor@, (held - amount) as u64)
            },
        }
    }
}

/// Creates an escrow at an already derived address and bump.
pub fn open_escrow(
    ledger: &mut Ledger,
    accounts: &Initialize,
    amount: u64,
    escrow_id: u64,
    created_at: i64,
    derived: Option<(Identity, u8)>,
) -> (r: Result<Identity, EscrowError>)
    requires
        old(ledger).wf(),
    ensures
        final(ledger).wf(),
        initialize_post(
            *old(ledger),
            *final(ledger),
            *accounts,
            amount,
            escrow_id,
            created_at,
            derived_view(derived),
            address_view(r),
        ),
{
    if amount == 0 {
        return Err(EscrowError::InvalidAmount);
    }
    let (address, bump) = match derived {
        Some(d) => d,
        None => {
            return Err(EscrowError::NoViableBump);
        },
    };
    if ledger.record(&accounts.depositor, escrow_id).is_some() {
        return Err(EscrowError::AccountAlreadyInUse);
    }
    if ledger.balance(&accounts.depositor) < amount {
        return Err(EscrowError::InsufficientBalance);
    }
    let debited = ledger.debit(&accounts.depositor, amount);
    assert(debited is Ok);
    let record = Escrow {
        depositor: accounts.depositor,
        recipient: accounts.recipient,
        amount,
        bump,
        escrow_id,
        created_at,
    };
    ledger.insert_record(record);
    Ok(address)
}

/// Creates an escrow of `amount` lamports from `accounts.depositor` for
/// `accounts.recipient`, stored at the address derived from the depositor and
/// `escrow_id`, and returns that address.
pub fn handler(
    ledger: &mut Ledger,
    accounts: &Initialize,
    amount: u64,
    escrow_id: u64,
    created_at: i64,
) -> (r: Result<Identity, EscrowError>)
    requires
        old(ledger).wf(),
    ensures
        final(ledger).wf(),
        initialize_post(
            *old(ledger),
            *final(ledger),
            *accounts,
            amount,
            escrow_id,
            created_at,
            escrow_address(accounts.depositor@, escrow_id),
            address_view(r),
        ),
{
    let derived = find_escrow_address(&accounts.depositor, escrow_id);
    open_escrow(ledger, accounts, amount, escrow_id, created_at, derived)
}

} // verus!
