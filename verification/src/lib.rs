//! A verified ledger of identity, credit-score and transfer-request records.
//!
//! Every record lives in a flat store addressed by a deterministic key derived
//! from a namespace and the owning parties. Three services operate on the
//! store: identity lifecycle (create, verify, unverify, delete), score
//! computation (a weighted integer formula over balance, age, verification and
//! storage efficiency), and the ownership-transfer protocol (initiate, claim,
//! cancel) with a claim deadline. Each operation is specified as a pure
//! transition function on the store's mathematical model, and the executable
//! code is proved to implement that transition exactly; the protocol laws are
//! proved over the transition functions.

pub mod constants;
pub mod errors;
pub mod identity;
pub mod laws;
pub mod score;
pub mod state;
pub mod transfer;
pub mod store;

pub use errors::IdentityScoreError;
pub use identity::{create_identity, delete_identity, unverify_identity, verify_identity};
pub use score::{calculate_score, delete_score};
pub use transfer::{cancel_transfer, claim_transfer, initiate_transfer};
pub use state::{CreditScoreAccount, IdentityAccount, RecordAddress, ScoreLevel, TransferRequest};
pub use store::RecordStore;
