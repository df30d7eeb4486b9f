//! A two-party escrow: a depositor locks lamports under a record addressed by
//! `(depositor, escrow_id)`; the recipient may claim them, or the depositor may
//! cancel and take them back, exactly once.
use vstd::prelude::*;

pub mod address;
pub mod errors;
pub mod instructions;
pub mod ledger;
pub mod state;

use crate::address::{escrow_address, escrow_seeds, lemma_distinct_ids_distinct_seeds, Identity};
use crate::errors::EscrowError;
use crate::instructions::cancel::{cancel_post, Cancel};
use crate::instructions::claim::{claim_post, Claim};
use crate::instructions::initialize::{address_view, initialize_post, Initialize};
use crate::ledger::Ledger;

verus! {

/// Creates a new escrow (see `instructions::initialize::handler`).
pub fn initialize(
    ledger: &mut Ledger,
    accounts: &Initialize,
    amount: u64,
    escrow_id: u64,
    created_at: i64,
) -> (r: Result<Identity, EscrowError>)
    requires
        old(ledger).wf(),
    ensures
        final(ledger).wf(),
        initialize_post(
            *old(ledger),
            *final(ledger),
            *accounts,
            amount,
            escrow_id,
            created_at,
            escrow_address(accounts.depositor@, escrow_id),
            address_view(r),
        ),
{
    crate::instructions::initialize::handler(ledger, accounts, amount, escrow_id, created_at)
}

/// Claims an escrow for its recipient (see `instructions::claim::handler`).
pub fn claim(ledger: &mut Ledger, accounts: &Claim, escrow_id: u64) -> (r: Result<(), EscrowError>)
    requires
        old(ledger).wf(),
    ensures
        final(ledger).wf(),
        claim_post(*old(ledger), *final(ledger), *accounts, escrow_id, r),
{
    crate::instructions::claim::handler(ledger, accounts, escrow_id)
}

/// Cancels an escrow for its depositor (see `instructions::cancel::handler`).
pub fn cancel(ledger: &mut Ledger, accounts: &Cancel, escrow_id: u64) -> (r: Result<(), EscrowError>)
    requires
        old(ledger).wf(),
    ensures
        final(ledger).wf(),
        cancel_post(*old(ledger), *final(ledger), *accounts, escrow_id, r),
{
    crate::instructions::cancel::handler(ledger, accounts, escrow_id)
}

/// The record of `key` is the same, or equally absent, in both ledgers.
pub open spec fn same_record(before: Ledger, after: Ledger, key: (Seq<u8>, u64)) -> bool {
    &&& after.records().contains_key(key) == before.records().contains_key(key)
    &&& before.records().contains_key(key) ==> after.records()[key] == before.records()[key]
}

/// Once a record has been claimed, every later claim or cancel of the same
/// `(depositor, escrow_id)` fails as not found and changes nothing.
pub proof fn lemma_claim_is_terminal(before: Ledger, after: Ledger, accounts: Claim, escrow_id: u64)
    requires
        claim_post(before, after, accounts, escrow_id, Ok(())),
    ensures
        forall|next: Ledger, c: Claim, r: Result<(), EscrowError>|
            c.depositor@ == accounts.depositor@ && #[trigger] claim_post(after, next, c, escrow_id, r)
                ==> r == Err::<(), EscrowError>(EscrowError::AccountNotInitialized) && next == after,
        forall|next: Ledger, c: Cancel, r: Result<(), EscrowError>|
            c.depositor@ == accounts.depositor@ && #[trigger] cancel_post(after, next, c, escrow_id, r)
                ==> r == Err::<(), EscrowError>(EscrowError::AccountNotInitialized) && next == after,
{
    assert(!after.records().contains_key((accounts.depositor@, escrow_id)));
}

/// Once a record has been cancelled, every later claim or cancel of the same
/// `(depositor, escrow_id)` fails as not found and changes nothing.
pub proof fn lemma_cancel_is_terminal(before: Ledger, after: Ledger, accounts: Cancel, escrow_id: u64)
    requires
        cancel_post(before, after, accounts, escrow_id, Ok(())),
    ensures
        forall|next: Ledger, c: Claim, r: Result<(), EscrowError>|
            c.depositor@ == accounts.depositor@ && #[trigger] claim_post(after, next, c, escrow_id, r)
                ==> r == Err::<(), EscrowError>(EscrowError::AccountNotInitialized) && next == after,
        forall|next: Ledger, c: Cancel, r: Result<(), EscrowError>|
            c.depositor@ == accounts.depositor@ && #[trigger] cancel_post(after, next, c, escrow_id, r)
                ==> r == Err::<(), EscrowError>(EscrowError::AccountNotInitialized) && next == after,
{
    assert(!after.records().contains_key((accounts.depositor@, escrow_id)));
}

/// Two distinct escrow ids of one depositor are derived from distinct seeds,
/// and creating, claiming or cancelling the one leaves the record of the other
/// as it was.
pub proof fn lemma_distinct_ids_independent(before: Ledger, depositor: Identity, id1: u64, id2: u64)
    requires
        id1 != id2,
    ensures
        escrow_seeds(depositor@, id1) != escrow_seeds(depositor@, id2),
        forall|after: Ledger, a: Initialize, amount: u64, t: i64, d: Option<(Seq<u8>, u8)>, r: Result<Seq<u8>, EscrowError>|
            a.depositor@ == depositor@ && #[trigger] initialize_post(before, after, a, amount, id1, t, d, r)
                ==> same_record(before, after, (depositor@, id2)),
        forall|after: Ledger, c: Claim, r: Result<(), EscrowError>|
            c.depositor@ == depositor@ && #[trigger] claim_post(before, after, c, id1, r)
                ==> same_record(before, after, (depositor@, id2)),
        forall|after: Ledger, c: Cancel, r: Result<(), EscrowError>|
            c.depositor@ == depositor@ && #[trigger] cancel_post(before, after, c, id1, r)
                ==> same_record(before, after, (depositor@, id2)),
{
    lemma_distinct_ids_distinct_seeds(depositor@, id1, id2);
    assert((depositor@, id1) != (depositor@, id2));
}

} // verus!
