//! An on-chain task marketplace with an attached reputation ledger.
//!
//! The task market runs each task through its lifecycle (posted, bid on,
//! assigned, delivered, approved, disputed, cancelled or resolved), holds the
//! reward in escrow on a currency ledger and reports outcomes to the
//! reputation ledger, which keeps a bounded score per account. Every
//! operation either succeeds or leaves all state as it was.

mod keys;
mod types;
pub mod balances;
pub mod reputation;
pub mod runtime;
pub mod task_market;

pub use balances::{AccountData, Balances};
pub use reputation::{
    HistoryEntry, Reputation, ReputationConfig, ReputationEvent, ReputationRecord, Review,
    MAX_SCORE,
};
pub use runtime::{new_test_ext, Runtime};
pub use task_market::{Bid, Dispute, MarketConfig, Task, TaskMarket, TaskStatus};
pub use types::{Error, Origin};
