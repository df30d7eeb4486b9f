//! Claiming an escrow.
use vstd::prelude::*;
use crate::address::Identity;
use crate::errors::EscrowError;
use crate::ledger::Ledger;

verus! {

/// The parties of a claim.
#[derive(Clone, Copy, Debug)]
pub struct Claim {
    /// The identity that signs the claim; it must be the record's recipient.
    pub caller: Identity,
    /// The depositor of the record, which locates it with the escrow id.
    pub depositor: Identity,
}

/// What claiming the record of `(accounts.depositor, escrow_id)` does: either
/// one error with the ledger untouched, or the record gone and its amount
/// added to the caller's balance.
pub open spec fn claim_post(
    before: Ledger,
    after: Ledger,
    accounts: Claim,
    escrow_id: u64,
    r: Result<(), EscrowError>,
) -> bool {
    let key = (accounts.depositor@, escrow_id);
    let held = before.balance_of(accounts.caller@);
    if !before.records().contains_key(key) {
        r == Err::<(), EscrowError>(EscrowError::AccountNotInitialized) && after == before
    } else if before.records()[key].recipient@ != accounts.caller@ {
        r == Err::<(), EscrowError>(EscrowError::UnauthorizedClaim) && after == before
    } else if held + before.records()[key].amount > u64::MAX {
        r == Err::<(), EscrowError>(EscrowError::LamportsOverflow) && after == before
    } else {
        &&& r == Ok::<(), EscrowError>(())
        &&& after.records() == before.records().remove(key)
        &&& after.balances() == before.balances().insert(
            accounts.caller@,
            (held + before.records()[key].amount) as u64,
        )
    }
}

/// Pays the record of `(accounts.depositor, escrow_id)` out to its recipient,
/// who must be `accounts.caller`, and destroys the record.
pub fn handler(ledger: &mut Ledger, accounts: &Claim, escrow_id: u64) -> (r: Result<(), EscrowError>)
    requires
        old(ledger).wf(),
    ensures
        final(ledger).wf(),
        claim_post(*old(ledger), *final(ledger), *accounts, escrow_id, r),
{
    let record = match ledger.record(&accounts.depositor, escrow_id) {
        Some(e) => e,
        None => {
            return Err(EscrowError::AccountNotInitialized);
        },
    };
    if !record.recipient.same_as(&accounts.caller) {
        return Err(EscrowError::UnauthorizedClaim);
    }
    match ledger.credit(&accounts.caller, record.amount) {
        Ok(()) => {},
        Err(e) => {
            return Err(e);
        },
    }
    let removed = ledger.remove_record(&accounts.depositor, escrow_id);
    assert(removed is Some);
    Ok(())
}

} // verus!
