//! The three lifecycle operations: create, claim and cancel.
pub mod cancel;
pub mod claim;
pub mod initialize;
