//! A multi-asset accounting ledger: per-asset balances, total supply,
//! descriptor blobs, and operator approvals, with `mint`, `transfer`
//! and `set_approval_for_all` operations proved against their contracts.

pub mod laws;
pub mod ledger;
pub mod store;

pub use laws::lemma_mint_makes_token_exist;
pub use laws::lemma_set_approval_idempotent;
pub use laws::lemma_supply_conservation;
pub use laws::lemma_transfer_never_overflows;
pub use laws::obs_equiv;
pub use ledger::Error;
pub use ledger::Event;
pub use ledger::Pallet;
pub use store::AccountId;
pub use store::Balance;
pub use store::TokenId;
