use vstd::prelude::*;

pub mod consensus;
pub mod crypto;
pub mod lunar_module;
pub mod transaction_pool;

pub use consensus::{ConsensusError, LunarConsensus};
pub use lunar_module::{LunarPhase, Validator};
pub use transaction_pool::{PoolError, Transaction, TransactionPool};

verus! {

} // verus!
