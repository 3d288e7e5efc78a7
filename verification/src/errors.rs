//! The error taxonomy shared by the pool and the lending contract.
//!
//! Every failure aborts the whole call: callers treat an `Err` as a revert
//! and discard all state changes and transfers.  External integrators match
//! on the exact message text, so `message` pins one stable string per
//! variant.

use vstd::prelude::*;

verus! {

/// A named revert reason.
///
/// Validation errors are detected before any state change; arithmetic
/// errors come from checked operations, never from silent wraparound;
/// authorization errors are distinct from both; invariant violations are
/// checked after computing a tentative new state and before committing it.
#[derive(Clone, Copy, Debug, PartialEq, Eq, Structural)]
pub enum CoreError {
    /// The contract has already been set up.
    AlreadyInitialized,
    /// A loan amount, collateral amount or duration of zero was supplied.
    ZeroAmountOrDuration,
    /// The two tokens of a pair must differ.
    SameTokenPair,
    /// The incoming transfers carry less of the required token than needed.
    InsufficientTokens,
    /// Summing the incoming transfers of one token overflowed.
    IncomingOverflow,
    /// A product in the interest formula exceeds the 128-bit range.
    InterestOverflow,
    /// `loan_start_block + duration_blocks` exceeds the 128-bit range.
    DeadlineOverflow,
    /// The loan is not waiting to be taken or cancelled.
    LoanOfferNotAvailable,
    /// The loan is not in its active phase.
    NoActiveLoan,
    /// The repayment deadline has passed; the loan can only default.
    LoanDefaulted,
    /// The repayment deadline has not passed yet.
    NotDefaultedYet,
    /// The capability token authorizing creditor actions was not attached.
    AuthTokenMissing,
    /// There is no collected repayment to claim.
    NothingToClaim,
    /// The pool's reentrancy lock is already held.
    Locked,
    /// The caller-supplied deadline lies in the past.
    Expired,
    /// Initial liquidity would not exceed the minimum-liquidity floor,
    /// or an add-liquidity call would mint zero shares.
    InsufficientLiquidityMinted,
    /// The matched deposit of token A fell below the caller's minimum.
    InsufficientAAmount,
    /// The matched deposit of token B fell below the caller's minimum.
    InsufficientBAmount,
    /// The swap would pay out nothing, or less than the caller's minimum.
    InsufficientOutputAmount,
    /// A swap settled without receiving any input.
    InsufficientInputAmount,
    /// The input required for an exact-output swap exceeds the caller's cap.
    ExcessiveInputAmount,
    /// The pool cannot cover the requested output.
    InsufficientLiquidity,
    /// The fee-adjusted constant product decreased.
    KNotIncreasing,
    /// A product in the liquidity share math exceeds the 128-bit range.
    LiquidityOverflow,
    /// A product in the swap pricing math exceeds the 128-bit range.
    SwapOverflow,
}

impl CoreError {
    /// The stable revert message surfaced to callers.
    pub fn message(&self) -> (m: &'static str)
        ensures
            m@ == self.message_spec(),
    {
        match self {
            CoreError::AlreadyInitialized => "already initialized",
            CoreError::ZeroAmountOrDuration => "amounts and duration must be nonzero",
            CoreError::SameTokenPair => "tokens must be distinct",
            CoreError::InsufficientTokens => "Insufficient tokens",
            CoreError::IncomingOverflow => "Overflow in incoming transfers",
            CoreError::InterestOverflow => "Overflow in interest calculation",
            CoreError::DeadlineOverflow => "Overflow calculating deadline",
            CoreError::LoanOfferNotAvailable => "Loan offer is not available",
            CoreError::NoActiveLoan => "No active loan to repay",
            CoreError::LoanDefaulted => "Loan has defaulted - deadline passed",
            CoreError::NotDefaultedYet => "not defaulted yet",
            CoreError::AuthTokenMissing => "Auth token is not in incoming alkanes",
            CoreError::NothingToClaim => "Loan has not been repaid",
            CoreError::Locked => "LOCKED",
            CoreError::Expired => "EXPIRED deadline",
            CoreError::InsufficientLiquidityMinted => "INSUFFICIENT_LIQUIDITY_MINTED",
            CoreError::InsufficientAAmount => "INSUFFICIENT_A_AMOUNT",
            CoreError::InsufficientBAmount => "INSUFFICIENT_B_AMOUNT",
            CoreError::InsufficientOutputAmount => "INSUFFICIENT_OUTPUT_AMOUNT",
            CoreError::InsufficientInputAmount => "INSUFFICIENT_INPUT_AMOUNT",
            CoreError::ExcessiveInputAmount => "EXCESSIVE_INPUT_AMOUNT",
            CoreError::InsufficientLiquidity => "INSUFFICIENT_LIQUIDITY",
            CoreError::KNotIncreasing => "K is not increasing",
            CoreError::LiquidityOverflow => "Overflow in liquidity calculation",
            CoreError::SwapOverflow => "Overflow in swap calculation",
        }
    }

    /// The message of each variant, as a sequence of characters.
    pub open spec fn message_spec(&self) -> Seq<char> {
        match self {
            CoreError::AlreadyInitialized => "already initialized"@,
            CoreError::ZeroAmountOrDuration => "amounts and duration must be nonzero"@,
            CoreError::SameTokenPair => "tokens must be distinct"@,
            CoreError::InsufficientTokens => "Insufficient tokens"@,
            CoreError::IncomingOverflow => "Overflow in incoming transfers"@,
            CoreError::InterestOverflow => "Overflow in interest calculation"@,
            CoreError::DeadlineOverflow => "Overflow calculating deadline"@,
            CoreError::LoanOfferNotAvailable => "Loan offer is not available"@,
            CoreError::NoActiveLoan => "No active loan to repay"@,
            CoreError::LoanDefaulted => "Loan has defaulted - deadline passed"@,
            CoreError::NotDefaultedYet => "not defaulted yet"@,
            CoreError::AuthTokenMissing => "Auth token is not in incoming alkanes"@,
            CoreError::NothingToClaim => "Loan has not been repaid"@,
            CoreError::Locked => "LOCKED"@,
            CoreError::Expired => "EXPIRED deadline"@,
            CoreError::InsufficientLiquidityMinted => "INSUFFICIENT_LIQUIDITY_MINTED"@,
            CoreError::InsufficientAAmount => "INSUFFICIENT_A_AMOUNT"@,
            CoreError::InsufficientBAmount => "INSUFFICIENT_B_AMOUNT"@,
            CoreError::InsufficientOutputAmount => "INSUFFICIENT_OUTPUT_AMOUNT"@,
            CoreError::InsufficientInputAmount => "INSUFFICIENT_INPUT_AMOUNT"@,
            CoreError::ExcessiveInputAmount => "EXCESSIVE_INPUT_AMOUNT"@,
            CoreError::InsufficientLiquidity => "INSUFFICIENT_LIQUIDITY"@,
            CoreError::KNotIncreasing => "K is not increasing"@,
            CoreError::LiquidityOverflow => "Overflow in liquidity calculation"@,
            CoreError::SwapOverflow => "Overflow in swap calculation"@,
        }
    }
}

} // verus!
