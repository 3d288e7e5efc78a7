//! Core accounting and state-machine logic for an alkanes-style on-chain
//! exchange and lending system: constant-product liquidity pools (swap
//! pricing, liquidity mint/burn, a time-weighted price oracle and a
//! reentrancy lock) and a peer-to-peer collateralized loan with
//! overflow-checked interest accrual.
//!
//! The code here is pure: every entry point is a function from explicit
//! state, call context and arguments to a new state plus a set of outgoing
//! token transfers.  Host concerns (opcode dispatch, persistent storage,
//! the balance ledger) live outside and interact with this crate only
//! through plain values.

/// Named revert reasons with stable message text.
pub mod errors;
/// Token identifiers, transfer parcels and the collect-and-refund scan.
pub mod ids;
/// Overflow-checked helpers: the integer square root.
pub mod math;
/// Interest accrual: principal, APR and duration to repayment.
pub mod interest;
/// Little-endian serialization of response payloads and state records.
pub mod codec;
/// The loan lifecycle state machine and its opcode dispatch.
pub mod loan;
/// 256-bit arithmetic for price accumulators and invariant checks.
pub mod wide;
/// Constant-product pools: swaps, liquidity, oracle and reentrancy lock.
pub mod pool;
