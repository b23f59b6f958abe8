//! Milestone-based fund custody: agreements between a payer and a payee,
//! released deliverable by deliverable, with a dispute path; and the two
//! directories around it, an arbitration body and a professional registry.
pub mod account;
pub mod arbitration;
pub mod fee;
pub mod escrow;
pub mod lookup;
pub mod registry;
