//! The failures of the escrow operations.
use vstd::prelude::*;

verus! {

#[derive(Clone, Copy, Debug, PartialEq, Eq, Structural)]
pub enum EscrowError {
    /// The depositor holds fewer lamports than the escrow amount.
    InsufficientBalance,
    /// The escrow amount is zero.
    InvalidAmount,
    /// Only the recipient may claim.
    UnauthorizedClaim,
    /// Only the depositor may cancel.
    UnauthorizedCancel,
    /// No live record exists for the given depositor and escrow id.
    AccountNotInitialized,
    /// A live record already exists for the given depositor and escrow id.
    AccountAlreadyInUse,
    /// No bump seed gives a valid program address.
    NoViableBump,
    /// Crediting the lamports would overflow the receiving balance.
    LamportsOverflow,
}

impl EscrowError {
    /// A human-readable description of the error.
    pub fn message(&self) -> &'static str {
        match self {
            EscrowError::InsufficientBalance => "Insufficient balance to create escrow",
            EscrowError::InvalidAmount => "Amount must be greater than 0",
            EscrowError::UnauthorizedClaim => "Unauthorized: Only recipient can claim",
            EscrowError::UnauthorizedCancel => "Unauthorized: Only depositor can cancel",
            EscrowError::AccountNotInitialized => "The escrow account does not exist",
            EscrowError::AccountAlreadyInUse => "The escrow account already exists",
            EscrowError::NoViableBump => "Unable to find a viable program address bump seed",
            EscrowError::LamportsOverflow => "Lamport balance overflow",
        }
    }
}

} // verus!
