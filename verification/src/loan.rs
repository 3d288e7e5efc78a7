//! The peer-to-peer collateralized lending contract.
//!
//! Each deployment represents exactly one loan.  Two initiation flows
//! are supported.  Creditor-first: the creditor deposits the loan
//! principal (`InitWithLoanAmount`) and a debitor takes the loan by
//! depositing collateral (`Take`).  Debitor-first: the debitor deposits
//! the collateral (`InitWithCollateralAmount`) and a creditor activates
//! the loan by funding the principal (`FundLoan`).  Either way the loan
//! is then repaid before its deadline or defaults after it.
//!
//! Possession of a capability token in the incoming transfers is the
//! sole authorization primitive.  The host's token factory mints a
//! distinct unforgeable token per minting call (`CallContext::auth_token`):
//! the offer creator's token authorizes cancellation, and the creditor's
//! token — handed out whenever the creditor enters — authorizes the
//! default and repayment claims.  Every rejection happens before any
//! state change or token movement: an `Err` leaves the contract
//! untouched and the host reverts the call.

use vstd::prelude::*;

use crate::errors::CoreError;
use crate::ids::{
    amount_of, collected_refunds, refund_and_check_inputs, AlkaneId, AlkaneTransfer, CallContext,
    CallResponse,
};
use crate::codec::{emit_id, emit_u128, read_id, read_u128, spec_id_to_le_bytes};
use crate::interest::{calculate_repayment, interest_amount, interest_computable};
use vstd::bytes::{lemma_auto_spec_u128_to_from_le_bytes, spec_u128_from_le_bytes,
    spec_u128_to_le_bytes};
use vstd::string::{StrSliceExecFns, StringSliceAdditionalSpecFns};

verus! {

/// Lifecycle phase of the loan.
#[derive(Clone, Copy, Debug, PartialEq, Eq, Structural)]
pub enum LoanState {
    Uninitialized,
    WaitingForTake,
    Active,
    Repaid,
    Defaulted,
    WaitingForLoan,
}

impl LoanState {
    /// The numeric code used in binary responses and the persisted record.
    pub open spec fn code_spec(self) -> u128 {
        match self {
            LoanState::Uninitialized => 0,
            LoanState::WaitingForTake => 1,
            LoanState::Active => 2,
            LoanState::Repaid => 3,
            LoanState::Defaulted => 4,
            LoanState::WaitingForLoan => 5,
        }
    }

    /// Numeric code of this phase.
    pub fn code(&self) -> (c: u128)
        ensures
            c == self.code_spec(),
    {
        match self {
            LoanState::Uninitialized => 0,
            LoanState::WaitingForTake => 1,
            LoanState::Active => 2,
            LoanState::Repaid => 3,
            LoanState::Defaulted => 4,
            LoanState::WaitingForLoan => 5,
        }
    }

    /// The phase with code `c` (`Uninitialized` off-range; callers reject
    /// codes above 5 first).
    pub open spec fn from_code_spec(c: u128) -> LoanState {
        if c == 1 {
            LoanState::WaitingForTake
        } else if c == 2 {
            LoanState::Active
        } else if c == 3 {
            LoanState::Repaid
        } else if c == 4 {
            LoanState::Defaulted
        } else if c == 5 {
            LoanState::WaitingForLoan
        } else {
            LoanState::Uninitialized
        }
    }

    /// The phase encoded by `c`, if any.
    pub fn from_code(c: u128) -> (r: Option<LoanState>)
        ensures
            r == if c <= 5 {
                Some(LoanState::from_code_spec(c))
            } else {
                None::<LoanState>
            },
            match r {
                Some(s) => s.code_spec() == c,
                None => c > 5,
            },
    {
        if c == 0 {
            Some(LoanState::Uninitialized)
        } else if c == 1 {
            Some(LoanState::WaitingForTake)
        } else if c == 2 {
            Some(LoanState::Active)
        } else if c == 3 {
            Some(LoanState::Repaid)
        } else if c == 4 {
            Some(LoanState::Defaulted)
        } else if c == 5 {
            Some(LoanState::WaitingForLoan)
        } else {
            None
        }
    }
}

/// The lending contract's persisted scalars.
///
/// `repayment_amount` (principal plus interest) is fixed eagerly at offer
/// creation, which is what makes an uncomputable repayment impossible to
/// reach later in the lifecycle.  `repayment_escrow` holds a collected
/// repayment until the creditor claims it.  `auth_token` is the
/// creditor's capability; `debitor_auth_token` is the offer creator's in
/// the debitor-first flow (zero otherwise) — two distinct tokens, so
/// neither party can exercise the other's rights.
#[derive(Clone, Copy, Debug, PartialEq, Eq, Structural)]
pub struct LendingContract {
    pub state: LoanState,
    pub collateral_token: AlkaneId,
    pub collateral_amount: u128,
    pub loan_token: AlkaneId,
    pub loan_amount: u128,
    pub duration_blocks: u128,
    pub apr_bps: u128,
    pub repayment_amount: u128,
    pub loan_start_block: u128,
    pub repayment_deadline: u128,
    pub repayment_escrow: u128,
    pub auth_token: AlkaneId,
    pub debitor_auth_token: AlkaneId,
}

impl LendingContract {
    /// The blank contract, before any offer has been made.
    pub open spec fn initial() -> LendingContract {
        LendingContract {
            state: LoanState::Uninitialized,
            collateral_token: AlkaneId { block: 0, tx: 0 },
            collateral_amount: 0,
            loan_token: AlkaneId { block: 0, tx: 0 },
            loan_amount: 0,
            duration_blocks: 0,
            apr_bps: 0,
            repayment_amount: 0,
            loan_start_block: 0,
            repayment_deadline: 0,
            repayment_escrow: 0,
            auth_token: AlkaneId { block: 0, tx: 0 },
            debitor_auth_token: AlkaneId { block: 0, tx: 0 },
        }
    }

    /// A fresh, uninitialized contract.
    pub fn new() -> (r: LendingContract)
        ensures
            r == LendingContract::initial(),
    {
        LendingContract {
            state: LoanState::Uninitialized,
            collateral_token: AlkaneId { block: 0, tx: 0 },
            collateral_amount: 0,
            loan_token: AlkaneId { block: 0, tx: 0 },
            loan_amount: 0,
            duration_blocks: 0,
            apr_bps: 0,
            repayment_amount: 0,
            loan_start_block: 0,
            repayment_deadline: 0,
            repayment_escrow: 0,
            auth_token: AlkaneId { block: 0, tx: 0 },
            debitor_auth_token: AlkaneId { block: 0, tx: 0 },
        }
    }

    /// The offer's fixed terms are valid: nonzero amounts and duration,
    /// distinct tokens, and a repayment amount that was computed without
    /// overflow from those terms.
    pub open spec fn terms_valid(self) -> bool {
        &&& self.collateral_amount > 0
        &&& self.loan_amount > 0
        &&& self.duration_blocks > 0
        &&& self.collateral_token != self.loan_token
        &&& interest_computable(
            self.loan_amount as int,
            self.apr_bps as int,
            self.duration_blocks as int,
        )
        &&& self.repayment_amount == self.loan_amount + interest_amount(
            self.loan_amount as int,
            self.apr_bps as int,
            self.duration_blocks as int,
        )
    }

    /// The invariant every entry point preserves.
    pub open spec fn wf(self) -> bool {
        match self.state {
            LoanState::Uninitialized => self == LendingContract::initial(),
            LoanState::WaitingForTake => self.terms_valid() && self.repayment_escrow == 0
                && self.loan_start_block == 0 && self.repayment_deadline == 0,
            LoanState::Active => self.terms_valid() && self.repayment_escrow == 0
                && self.repayment_deadline == self.loan_start_block + self.duration_blocks,
            LoanState::Repaid => self.terms_valid() && (self.repayment_escrow
                == self.repayment_amount || self.repayment_escrow == 0),
            LoanState::Defaulted => self.terms_valid() && self.repayment_escrow == 0,
            LoanState::WaitingForLoan => self.terms_valid() && self.repayment_escrow == 0
                && self.loan_start_block == 0 && self.repayment_deadline == 0,
        }
    }

    /// The contract as it stands after a successful offer creation.
    pub open spec fn offer_made(
        ctx: CallContext,
        collateral_token: AlkaneId,
        collateral_amount: u128,
        loan_token: AlkaneId,
        loan_amount: u128,
        duration_blocks: u128,
        apr_bps: u128,
    ) -> LendingContract {
        LendingContract {
            state: LoanState::WaitingForTake,
            collateral_token,
            collateral_amount,
            loan_token,
            loan_amount,
            duration_blocks,
            apr_bps,
            repayment_amount: (loan_amount + interest_amount(
                loan_amount as int,
                apr_bps as int,
                duration_blocks as int,
            )) as u128,
            loan_start_block: 0,
            repayment_deadline: 0,
            repayment_escrow: 0,
            auth_token: ctx.auth_token,
            debitor_auth_token: AlkaneId { block: 0, tx: 0 },
        }
    }

    /// The revert, if any, of an `InitWithLoanAmount` call, in the order
    /// the checks are made.
    pub open spec fn init_error(
        self,
        ctx: CallContext,
        collateral_token: AlkaneId,
        collateral_amount: u128,
        loan_token: AlkaneId,
        loan_amount: u128,
        duration_blocks: u128,
        apr_bps: u128,
    ) -> Option<CoreError> {
        if self.state != LoanState::Uninitialized {
            Some(CoreError::AlreadyInitialized)
        } else if collateral_amount == 0 || loan_amount == 0 || duration_blocks == 0 {
            Some(CoreError::ZeroAmountOrDuration)
        } else if collateral_token == loan_token {
            Some(CoreError::SameTokenPair)
        } else if !(interest_computable(loan_amount as int, apr_bps as int, duration_blocks as int)
            && loan_amount + interest_amount(
            loan_amount as int,
            apr_bps as int,
            duration_blocks as int,
        ) <= u128::MAX) {
            Some(CoreError::InterestOverflow)
        } else if amount_of(ctx.incoming_alkanes@, loan_token) > u128::MAX {
            Some(CoreError::IncomingOverflow)
        } else if amount_of(ctx.incoming_alkanes@, loan_token) < loan_amount {
            Some(CoreError::InsufficientTokens)
        } else {
            None
        }
    }

    /// Create a loan offer, funded by the creditor.
    ///
    /// Requires the caller to attach at least `loan_amount` of
    /// `loan_token` (excess and unrelated tokens are refunded), validates
    /// the terms, eagerly checks that the repayment amount is computable
    /// without overflow, and mints one capability token to the creditor.
    pub fn init_with_loan_amount(
        &mut self,
        ctx: &CallContext,
        collateral_token: AlkaneId,
        collateral_amount: u128,
        loan_token: AlkaneId,
        loan_amount: u128,
        duration_blocks: u128,
        apr_bps: u128,
    ) -> (r: Result<CallResponse, CoreError>)
        requires
            old(self).wf(),
        ensures
            final(self).wf(),
            LendingContract::init_loan_post(
                *old(self),
                *final(self),
                *ctx,
                collateral_token,
                collateral_amount,
                loan_token,
                loan_amount,
                duration_blocks,
                apr_bps,
                r,
            ),
    {
        if !matches!(self.state, LoanState::Uninitialized) {
            return Err(CoreError::AlreadyInitialized);
        }
        if collateral_amount == 0 || loan_amount == 0 || duration_blocks == 0 {
            return Err(CoreError::ZeroAmountOrDuration);
        }
        if collateral_token == loan_token {
            return Err(CoreError::SameTokenPair);
        }
        let repayment_amount = match calculate_repayment(loan_amount, apr_bps, duration_blocks) {
            Ok(v) => v,
            Err(e) => {
                return Err(e);
            },
        };
        let mut resp = match refund_and_check_inputs(&ctx.incoming_alkanes, loan_token, loan_amount) {
            Ok(resp) => resp,
            Err(e) => {
                return Err(e);
            },
        };
        resp.alkanes.pay(AlkaneTransfer { id: ctx.auth_token, value: 1 });
        self.state = LoanState::WaitingForTake;
        self.collateral_token = collateral_token;
        self.collateral_amount = collateral_amount;
        self.loan_token = loan_token;
        self.loan_amount = loan_amount;
        self.duration_blocks = duration_blocks;
        self.apr_bps = apr_bps;
        self.repayment_amount = repayment_amount;
        self.auth_token = ctx.auth_token;
        Ok(resp)
    }

    /// The revert, if any, of a `Take` call.
    pub open spec fn take_error(self, ctx: CallContext) -> Option<CoreError> {
        if self.state != LoanState::WaitingForTake {
            Some(CoreError::LoanOfferNotAvailable)
        } else if amount_of(ctx.incoming_alkanes@, self.collateral_token) > u128::MAX {
            Some(CoreError::IncomingOverflow)
        } else if amount_of(ctx.incoming_alkanes@, self.collateral_token)
            < self.collateral_amount {
            Some(CoreError::InsufficientTokens)
        } else if ctx.current_block + self.duration_blocks > u128::MAX {
            Some(CoreError::DeadlineOverflow)
        } else {
            None
        }
    }

    /// Take the offered loan by depositing collateral.
    ///
    /// Sets the loan's start block and repayment deadline (checked add)
    /// and forwards the loan principal to the caller, who becomes the
    /// debitor.
    pub fn take(&mut self, ctx: &CallContext) -> (r: Result<CallResponse, CoreError>)
        requires
            old(self).wf(),
        ensures
            final(self).wf(),
            LendingContract::take_post(
                *old(self),
                *final(self),
                *ctx,
                r,
            ),
    {
        if !matches!(self.state, LoanState::WaitingForTake) {
            return Err(CoreError::LoanOfferNotAvailable);
        }
        let mut resp = match refund_and_check_inputs(
            &ctx.incoming_alkanes,
            self.collateral_token,
            self.collateral_amount,
        ) {
            Ok(resp) => resp,
            Err(e) => {
                return Err(e);
            },
        };
        let deadline = match ctx.current_block.checked_add(self.duration_blocks) {
            Some(d) => d,
            None => {
                return Err(CoreError::DeadlineOverflow);
            },
        };
        resp.alkanes.pay(AlkaneTransfer { id: self.loan_token, value: self.loan_amount });
        self.state = LoanState::Active;
        self.loan_start_block = ctx.current_block;
        self.repayment_deadline = deadline;
        Ok(resp)
    }

    /// The contract as it stands after a successful debitor-first offer
    /// creation: the same terms, waiting for a creditor to fund the
    /// principal, with the capability token held by the debitor.
    pub open spec fn collateral_offer_made(
        ctx: CallContext,
        collateral_token: AlkaneId,
        collateral_amount: u128,
        loan_token: AlkaneId,
        loan_amount: u128,
        duration_blocks: u128,
        apr_bps: u128,
    ) -> LendingContract {
        LendingContract {
            state: LoanState::WaitingForLoan,
            auth_token: AlkaneId { block: 0, tx: 0 },
            debitor_auth_token: ctx.auth_token,
            ..LendingContract::offer_made(
                ctx,
                collateral_token,
                collateral_amount,
                loan_token,
                loan_amount,
                duration_blocks,
                apr_bps,
            )
        }
    }

    /// The revert, if any, of an `InitWithCollateralAmount` call, in the
    /// order the checks are made.
    pub open spec fn init_collateral_error(
        self,
        ctx: CallContext,
        collateral_token: AlkaneId,
        collateral_amount: u128,
        loan_token: AlkaneId,
        loan_amount: u128,
        duration_blocks: u128,
        apr_bps: u128,
    ) -> Option<CoreError> {
        if self.state != LoanState::Uninitialized {
            Some(CoreError::AlreadyInitialized)
        } else if collateral_amount == 0 || loan_amount == 0 || duration_blocks == 0 {
            Some(CoreError::ZeroAmountOrDuration)
        } else if collateral_token == loan_token {
            Some(CoreError::SameTokenPair)
        } else if !(interest_computable(loan_amount as int, apr_bps as int, duration_blocks as int)
            && loan_amount + interest_amount(
            loan_amount as int,
            apr_bps as int,
            duration_blocks as int,
        ) <= u128::MAX) {
            Some(CoreError::InterestOverflow)
        } else if amount_of(ctx.incoming_alkanes@, collateral_token) > u128::MAX {
            Some(CoreError::IncomingOverflow)
        } else if amount_of(ctx.incoming_alkanes@, collateral_token) < collateral_amount {
            Some(CoreError::InsufficientTokens)
        } else {
            None
        }
    }

    /// Create a loan offer funded by the debitor's collateral
    /// (debitor-first flow).
    ///
    /// Mirrors [`LendingContract::init_with_loan_amount`], collecting
    /// `collateral_amount` of `collateral_token` instead of the
    /// principal: the same term validation, the same eager check that the
    /// repayment is computable, and one capability token minted to the
    /// offer creator (here the debitor), good for cancellation.
    pub fn init_with_collateral_amount(
        &mut self,
        ctx: &CallContext,
        collateral_token: AlkaneId,
        collateral_amount: u128,
        loan_token: AlkaneId,
        loan_amount: u128,
        duration_blocks: u128,
        apr_bps: u128,
    ) -> (r: Result<CallResponse, CoreError>)
        requires
            old(self).wf(),
        ensures
            final(self).wf(),
            LendingContract::init_collateral_post(
                *old(self),
                *final(self),
                *ctx,
                collateral_token,
                collateral_amount,
                loan_token,
                loan_amount,
                duration_blocks,
                apr_bps,
                r,
            ),
    {
        if !matches!(self.state, LoanState::Uninitialized) {
            return Err(CoreError::AlreadyInitialized);
        }
        if collateral_amount == 0 || loan_amount == 0 || duration_blocks == 0 {
            return Err(CoreError::ZeroAmountOrDuration);
        }
        if collateral_token == loan_token {
            return Err(CoreError::SameTokenPair);
        }
        let repayment_amount = match calculate_repayment(loan_amount, apr_bps, duration_blocks) {
            Ok(v) => v,
            Err(e) => {
                return Err(e);
            },
        };
        let mut resp = match refund_and_check_inputs(
            &ctx.incoming_alkanes,
            collateral_token,
            collateral_amount,
        ) {
            Ok(resp) => resp,
            Err(e) => {
                return Err(e);
            },
        };
        resp.alkanes.pay(AlkaneTransfer { id: ctx.auth_token, value: 1 });
        self.state = LoanState::WaitingForLoan;
        self.collateral_token = collateral_token;
        self.collateral_amount = collateral_amount;
        self.loan_token = loan_token;
        self.loan_amount = loan_amount;
        self.duration_blocks = duration_blocks;
        self.apr_bps = apr_bps;
        self.repayment_amount = repayment_amount;
        self.auth_token = AlkaneId::new(0, 0);
        self.debitor_auth_token = ctx.auth_token;
        Ok(resp)
    }

    /// The revert, if any, of a `FundLoan` call.
    pub open spec fn fund_error(self, ctx: CallContext) -> Option<CoreError> {
        if self.state != LoanState::WaitingForLoan {
            Some(CoreError::LoanOfferNotAvailable)
        } else if amount_of(ctx.incoming_alkanes@, self.loan_token) > u128::MAX {
            Some(CoreError::IncomingOverflow)
        } else if amount_of(ctx.incoming_alkanes@, self.loan_token) < self.loan_amount {
            Some(CoreError::InsufficientTokens)
        } else if ctx.current_block + self.duration_blocks > u128::MAX {
            Some(CoreError::DeadlineOverflow)
        } else {
            None
        }
    }

    /// Fund a debitor-first offer with the loan principal, activating the
    /// loan.  The caller becomes the creditor.
    ///
    /// Sets the loan's start block and repayment deadline (checked add),
    /// emits the principal (which the host routes to the debitor who made
    /// the offer), and mints the creditor's capability token — a token
    /// distinct from the debitor's, so only the creditor can claim the
    /// defaulted collateral or the repayment.
    pub fn fund_loan(&mut self, ctx: &CallContext) -> (r: Result<CallResponse, CoreError>)
        requires
            old(self).wf(),
        ensures
            final(self).wf(),
            LendingContract::fund_post(
                *old(self),
                *final(self),
                *ctx,
                r,
            ),
    {
        if !matches!(self.state, LoanState::WaitingForLoan) {
            return Err(CoreError::LoanOfferNotAvailable);
        }
        let mut resp = match refund_and_check_inputs(
            &ctx.incoming_alkanes,
            self.loan_token,
            self.loan_amount,
        ) {
            Ok(resp) => resp,
            Err(e) => {
                return Err(e);
            },
        };
        let deadline = match ctx.current_block.checked_add(self.duration_blocks) {
            Some(d) => d,
            None => {
                return Err(CoreError::DeadlineOverflow);
            },
        };
        resp.alkanes.pay(AlkaneTransfer { id: self.loan_token, value: self.loan_amount });
        resp.alkanes.pay(AlkaneTransfer { id: ctx.auth_token, value: 1 });
        self.state = LoanState::Active;
        self.loan_start_block = ctx.current_block;
        self.repayment_deadline = deadline;
        self.auth_token = ctx.auth_token;
        Ok(resp)
    }

    /// The token and amount an open offer has in escrow: the principal
    /// while waiting to be taken, the collateral while waiting to be
    /// funded.
    pub open spec fn escrowed_deposit(self) -> AlkaneTransfer {
        if self.state == LoanState::WaitingForTake {
            AlkaneTransfer { id: self.loan_token, value: self.loan_amount }
        } else {
            AlkaneTransfer { id: self.collateral_token, value: self.collateral_amount }
        }
    }

    /// The revert, if any, of a `Cancel` call: only an open offer can be
    /// cancelled, and only by its creator's capability token.
    pub open spec fn cancel_error(self, ctx: CallContext) -> Option<CoreError> {
        if self.state != LoanState::WaitingForTake && self.state != LoanState::WaitingForLoan {
            Some(CoreError::LoanOfferNotAvailable)
        } else if self.state == LoanState::WaitingForTake && amount_of(
            ctx.incoming_alkanes@,
            self.auth_token,
        ) < 1 {
            Some(CoreError::AuthTokenMissing)
        } else if self.state == LoanState::WaitingForLoan && amount_of(
            ctx.incoming_alkanes@,
            self.debitor_auth_token,
        ) < 1 {
            Some(CoreError::AuthTokenMissing)
        } else {
            None
        }
    }

    /// Cancel an open offer (its creator only).
    ///
    /// Returns every incoming transfer (including the capability token)
    /// plus the full escrowed deposit — the principal of a creditor-first
    /// offer, the collateral of a debitor-first one — and resets the
    /// contract so a new offer can be made.
    pub fn cancel(&mut self, ctx: &CallContext) -> (r: Result<CallResponse, CoreError>)
        requires
            old(self).wf(),
        ensures
            final(self).wf(),
            LendingContract::cancel_post(
                *old(self),
                *final(self),
                *ctx,
                r,
            ),
    {
        let refund: AlkaneTransfer = if matches!(self.state, LoanState::WaitingForTake) {
            if !ctx.incoming_alkanes.has_unit(self.auth_token) {
                return Err(CoreError::AuthTokenMissing);
            }
            AlkaneTransfer { id: self.loan_token, value: self.loan_amount }
        } else if matches!(self.state, LoanState::WaitingForLoan) {
            if !ctx.incoming_alkanes.has_unit(self.debitor_auth_token) {
                return Err(CoreError::AuthTokenMissing);
            }
            AlkaneTransfer { id: self.collateral_token, value: self.collateral_amount }
        } else {
            return Err(CoreError::LoanOfferNotAvailable);
        };
        let mut resp = CallResponse::forward(&ctx.incoming_alkanes);
        resp.alkanes.pay(refund);
        *self = LendingContract::new();
        Ok(resp)
    }

    /// The revert, if any, of a `Repay` call.
    pub open spec fn repay_error(self, ctx: CallContext) -> Option<CoreError> {
        if self.state != LoanState::Active {
            Some(CoreError::NoActiveLoan)
        } else if ctx.current_block > self.repayment_deadline {
            Some(CoreError::LoanDefaulted)
        } else if amount_of(ctx.incoming_alkanes@, self.loan_token) > u128::MAX {
            Some(CoreError::IncomingOverflow)
        } else if amount_of(ctx.incoming_alkanes@, self.loan_token) < self.repayment_amount {
            Some(CoreError::InsufficientTokens)
        } else {
            None
        }
    }

    /// Repay the loan before the deadline (debitor).
    ///
    /// Collects the fixed repayment amount (principal plus interest),
    /// returns the collateral in full, and escrows the repayment for the
    /// creditor to claim.
    pub fn repay(&mut self, ctx: &CallContext) -> (r: Result<CallResponse, CoreError>)
        requires
            old(self).wf(),
        ensures
            final(self).wf(),
            LendingContract::repay_post(
                *old(self),
                *final(self),
                *ctx,
                r,
            ),
    {
        if !matches!(self.state, LoanState::Active) {
            return Err(CoreError::NoActiveLoan);
        }
        if ctx.current_block > self.repayment_deadline {
            return Err(CoreError::LoanDefaulted);
        }
        let mut resp = match refund_and_check_inputs(
            &ctx.incoming_alkanes,
            self.loan_token,
            self.repayment_amount,
        ) {
            Ok(resp) => resp,
            Err(e) => {
                return Err(e);
            },
        };
        resp.alkanes.pay(
            AlkaneTransfer { id: self.collateral_token, value: self.collateral_amount },
        );
        self.state = LoanState::Repaid;
        self.repayment_escrow = self.repayment_amount;
        Ok(resp)
    }

    /// The revert, if any, of a `ClaimDefaultedCollateral` call.
    pub open spec fn claim_defaulted_error(self, ctx: CallContext) -> Option<CoreError> {
        if self.state != LoanState::Active {
            Some(CoreError::NoActiveLoan)
        } else if amount_of(ctx.incoming_alkanes@, self.auth_token) < 1 {
            Some(CoreError::AuthTokenMissing)
        } else if ctx.current_block <= self.repayment_deadline {
            Some(CoreError::NotDefaultedYet)
        } else {
            None
        }
    }

    /// Claim the collateral of a defaulted loan (creditor only, strictly
    /// past the repayment deadline).
    pub fn claim_defaulted_collateral(&mut self, ctx: &CallContext) -> (r: Result<
        CallResponse,
        CoreError,
    >)
        requires
            old(self).wf(),
        ensures
            final(self).wf(),
            LendingContract::claim_defaulted_post(
                *old(self),
                *final(self),
                *ctx,
                r,
            ),
    {
        if !matches!(self.state, LoanState::Active) {
            return Err(CoreError::NoActiveLoan);
        }
        if !ctx.incoming_alkanes.has_unit(self.auth_token) {
            return Err(CoreError::AuthTokenMissing);
        }
        if ctx.current_block <= self.repayment_deadline {
            return Err(CoreError::NotDefaultedYet);
        }
        let mut resp = CallResponse::forward(&ctx.incoming_alkanes);
        resp.alkanes.pay(
            AlkaneTransfer { id: self.collateral_token, value: self.collateral_amount },
        );
        self.state = LoanState::Defaulted;
        Ok(resp)
    }

    /// The revert, if any, of a `ClaimRepayment` call.
    pub open spec fn claim_repayment_error(self, ctx: CallContext) -> Option<CoreError> {
        if self.state != LoanState::Repaid {
            Some(CoreError::NothingToClaim)
        } else if amount_of(ctx.incoming_alkanes@, self.auth_token) < 1 {
            Some(CoreError::AuthTokenMissing)
        } else {
            None
        }
    }

    /// Claim the escrowed repayment of a repaid loan (creditor only).
    ///
    /// Pays out whatever is still escrowed — the full repayment on the
    /// first claim, nothing on a repeated one — so tokens are never
    /// created by claiming twice.
    pub fn claim_repayment(&mut self, ctx: &CallContext) -> (r: Result<CallResponse, CoreError>)
        requires
            old(self).wf(),
        ensures
            final(self).wf(),
            LendingContract::claim_repayment_post(
                *old(self),
                *final(self),
                *ctx,
                r,
            ),
    {
        if !matches!(self.state, LoanState::Repaid) {
            return Err(CoreError::NothingToClaim);
        }
        if !ctx.incoming_alkanes.has_unit(self.auth_token) {
            return Err(CoreError::AuthTokenMissing);
        }
        let mut resp = CallResponse::forward(&ctx.incoming_alkanes);
        resp.alkanes.pay(AlkaneTransfer { id: self.loan_token, value: self.repayment_escrow });
        self.repayment_escrow = 0;
        Ok(resp)
    }

    /// Return every incoming transfer unchanged.
    pub fn forward_incoming(&self, ctx: &CallContext) -> (r: CallResponse)
        ensures
            r.alkanes@ =~= ctx.incoming_alkanes@,
            r.data@ =~= Seq::<u8>::empty(),
    {
        CallResponse::forward(&ctx.incoming_alkanes)
    }

    /// Token name of this contract.
    pub fn name(&self) -> (r: &'static str)
        ensures
            r@ == "Lending Contract"@,
    {
        "Lending Contract"
    }

    /// Token symbol of this contract.
    pub fn symbol(&self) -> (r: &'static str)
        ensures
            r@ == "LEND"@,
    {
        "LEND"
    }

    /// Answer a name query: forward the incoming transfers and put the
    /// token name into the binary payload.
    pub fn get_name(&self, ctx: &CallContext) -> (r: CallResponse)
        ensures
            r.alkanes@ =~= ctx.incoming_alkanes@,
            r.data@ == "Lending Contract".spec_bytes(),
    {
        let mut resp = CallResponse::forward(&ctx.incoming_alkanes);
        resp.data = self.name().as_bytes_vec();
        resp
    }

    /// Answer a symbol query: forward the incoming transfers and put the
    /// token symbol into the binary payload.
    pub fn get_symbol(&self, ctx: &CallContext) -> (r: CallResponse)
        ensures
            r.alkanes@ =~= ctx.incoming_alkanes@,
            r.data@ == "LEND".spec_bytes(),
    {
        let mut resp = CallResponse::forward(&ctx.incoming_alkanes);
        resp.data = self.symbol().as_bytes_vec();
        resp
    }

    /// The binary layout of a loan-details answer: the state code alone
    /// while uninitialized; the state code, both token identifiers and
    /// every fixed term once an offer exists; plus deadline and start
    /// block while the loan is active.  All fields are 16-byte
    /// little-endian values (token identifiers take two).
    pub open spec fn details_bytes(self) -> Seq<u8> {
        if self.state == LoanState::Uninitialized {
            spec_u128_to_le_bytes(0)
        } else {
            let base = spec_u128_to_le_bytes(self.state.code_spec()) + spec_id_to_le_bytes(
                self.collateral_token,
            ) + spec_u128_to_le_bytes(self.collateral_amount) + spec_id_to_le_bytes(
                self.loan_token,
            ) + spec_u128_to_le_bytes(self.loan_amount) + spec_u128_to_le_bytes(
                self.duration_blocks,
            ) + spec_u128_to_le_bytes(self.apr_bps);
            if self.state == LoanState::Active {
                base + spec_u128_to_le_bytes(self.repayment_deadline) + spec_u128_to_le_bytes(
                    self.loan_start_block,
                )
            } else {
                base
            }
        }
    }

    /// Answer a loan-details query.
    ///
    /// The payload is 16 bytes while uninitialized, 144 bytes once an
    /// offer exists, and 176 bytes while the loan is active.
    pub fn get_loan_details(&self, ctx: &CallContext) -> (r: CallResponse)
        ensures
            r.alkanes@ =~= ctx.incoming_alkanes@,
            r.data@ =~= self.details_bytes(),
            self.state == LoanState::Uninitialized ==> r.data@.len() == 16,
            self.state == LoanState::Active ==> r.data@.len() == 176,
            self.state != LoanState::Uninitialized && self.state != LoanState::Active
                ==> r.data@.len() == 144,
    {
        proof {
            lemma_auto_spec_u128_to_from_le_bytes();
        }
        let mut resp = CallResponse::forward(&ctx.incoming_alkanes);
        let mut data: Vec<u8> = Vec::new();
        emit_u128(&mut data, self.state.code());
        if !matches!(self.state, LoanState::Uninitialized) {
            emit_id(&mut data, self.collateral_token);
            emit_u128(&mut data, self.collateral_amount);
            emit_id(&mut data, self.loan_token);
            emit_u128(&mut data, self.loan_amount);
            emit_u128(&mut data, self.duration_blocks);
            emit_u128(&mut data, self.apr_bps);
            if matches!(self.state, LoanState::Active) {
                emit_u128(&mut data, self.repayment_deadline);
                emit_u128(&mut data, self.loan_start_block);
            }
        }
        resp.data = data;
        resp
    }

    /// Answer a state query: the state code as one little-endian field.
    pub fn get_state(&self, ctx: &CallContext) -> (r: CallResponse)
        ensures
            r.alkanes@ =~= ctx.incoming_alkanes@,
            r.data@ =~= spec_u128_to_le_bytes(self.state.code_spec()),
    {
        let mut resp = CallResponse::forward(&ctx.incoming_alkanes);
        let mut data: Vec<u8> = Vec::new();
        emit_u128(&mut data, self.state.code());
        resp.data = data;
        resp
    }

    /// Answer a repayment-amount query; there is none before an offer
    /// exists.
    pub fn get_repayment_amount(&self, ctx: &CallContext) -> (r: Result<CallResponse, CoreError>)
        ensures
            match r {
                Ok(resp) => {
                    &&& self.state != LoanState::Uninitialized
                    &&& resp.alkanes@ =~= ctx.incoming_alkanes@
                    &&& resp.data@ =~= spec_u128_to_le_bytes(self.repayment_amount)
                },
                Err(e) => self.state == LoanState::Uninitialized && e
                    == CoreError::LoanOfferNotAvailable,
            },
    {
        if matches!(self.state, LoanState::Uninitialized) {
            return Err(CoreError::LoanOfferNotAvailable);
        }
        let mut resp = CallResponse::forward(&ctx.incoming_alkanes);
        let mut data: Vec<u8> = Vec::new();
        emit_u128(&mut data, self.repayment_amount);
        resp.data = data;
        Ok(resp)
    }

    /// Answer a time-remaining query: the number of blocks until the
    /// repayment deadline (zero once it has passed); only an active loan
    /// has a deadline.
    pub fn get_time_remaining(&self, ctx: &CallContext) -> (r: Result<CallResponse, CoreError>)
        ensures
            match r {
                Ok(resp) => {
                    &&& self.state == LoanState::Active
                    &&& resp.alkanes@ =~= ctx.incoming_alkanes@
                    &&& resp.data@ =~= spec_u128_to_le_bytes(
                        if ctx.current_block <= self.repayment_deadline {
                            (self.repayment_deadline - ctx.current_block) as u128
                        } else {
                            0
                        },
                    )
                },
                Err(e) => self.state != LoanState::Active && e == CoreError::NoActiveLoan,
            },
    {
        if !matches!(self.state, LoanState::Active) {
            return Err(CoreError::NoActiveLoan);
        }
        let remaining: u128 = if ctx.current_block <= self.repayment_deadline {
            self.repayment_deadline - ctx.current_block
        } else {
            0
        };
        let mut resp = CallResponse::forward(&ctx.incoming_alkanes);
        let mut data: Vec<u8> = Vec::new();
        emit_u128(&mut data, remaining);
        resp.data = data;
        Ok(resp)
    }

    /// The 272-byte little-endian layout of the persisted state record.
    pub open spec fn record_bytes(self) -> Seq<u8> {
        spec_u128_to_le_bytes(self.state.code_spec()) + spec_id_to_le_bytes(self.collateral_token)
            + spec_u128_to_le_bytes(self.collateral_amount) + spec_id_to_le_bytes(self.loan_token)
            + spec_u128_to_le_bytes(self.loan_amount) + spec_u128_to_le_bytes(self.duration_blocks)
            + spec_u128_to_le_bytes(self.apr_bps) + spec_u128_to_le_bytes(self.repayment_amount)
            + spec_u128_to_le_bytes(self.loan_start_block) + spec_u128_to_le_bytes(
            self.repayment_deadline,
        ) + spec_u128_to_le_bytes(self.repayment_escrow) + spec_id_to_le_bytes(self.auth_token)
            + spec_id_to_le_bytes(self.debitor_auth_token)
    }

    /// Serialize the contract for the persisted scalar store.
    pub fn encode_record(&self) -> (data: Vec<u8>)
        ensures
            data@ =~= self.record_bytes(),
            data@.len() == 272,
    {
        proof {
            lemma_auto_spec_u128_to_from_le_bytes();
        }
        let mut data: Vec<u8> = Vec::new();
        emit_u128(&mut data, self.state.code());
        emit_id(&mut data, self.collateral_token);
        emit_u128(&mut data, self.collateral_amount);
        emit_id(&mut data, self.loan_token);
        emit_u128(&mut data, self.loan_amount);
        emit_u128(&mut data, self.duration_blocks);
        emit_u128(&mut data, self.apr_bps);
        emit_u128(&mut data, self.repayment_amount);
        emit_u128(&mut data, self.loan_start_block);
        emit_u128(&mut data, self.repayment_deadline);
        emit_u128(&mut data, self.repayment_escrow);
        emit_id(&mut data, self.auth_token);
        emit_id(&mut data, self.debitor_auth_token);
        data
    }

    /// The contract encoded by a 272-byte record, if the state code is
    /// in range.
    pub open spec fn decode_record_spec(data: Seq<u8>) -> Option<LendingContract> {
        if data.len() != 272 {
            None
        } else if spec_u128_from_le_bytes(data.subrange(0, 16)) > 5 {
            None
        } else {
            Some(
                LendingContract {
                    state: LoanState::from_code_spec(
                        spec_u128_from_le_bytes(data.subrange(0, 16)),
                    ),
                    collateral_token: AlkaneId {
                        block: spec_u128_from_le_bytes(data.subrange(16, 32)),
                        tx: spec_u128_from_le_bytes(data.subrange(32, 48)),
                    },
                    collateral_amount: spec_u128_from_le_bytes(data.subrange(48, 64)),
                    loan_token: AlkaneId {
                        block: spec_u128_from_le_bytes(data.subrange(64, 80)),
                        tx: spec_u128_from_le_bytes(data.subrange(80, 96)),
                    },
                    loan_amount: spec_u128_from_le_bytes(data.subrange(96, 112)),
                    duration_blocks: spec_u128_from_le_bytes(data.subrange(112, 128)),
                    apr_bps: spec_u128_from_le_bytes(data.subrange(128, 144)),
                    repayment_amount: spec_u128_from_le_bytes(data.subrange(144, 160)),
                    loan_start_block: spec_u128_from_le_bytes(data.subrange(160, 176)),
                    repayment_deadline: spec_u128_from_le_bytes(data.subrange(176, 192)),
                    repayment_escrow: spec_u128_from_le_bytes(data.subrange(192, 208)),
                    auth_token: AlkaneId {
                        block: spec_u128_from_le_bytes(data.subrange(208, 224)),
                        tx: spec_u128_from_le_bytes(data.subrange(224, 240)),
                    },
                    debitor_auth_token: AlkaneId {
                        block: spec_u128_from_le_bytes(data.subrange(240, 256)),
                        tx: spec_u128_from_le_bytes(data.subrange(256, 272)),
                    },
                },
            )
        }
    }

    /// Deserialize a persisted state record.
    pub fn decode_record(data: &[u8]) -> (r: Option<LendingContract>)
        ensures
            r == LendingContract::decode_record_spec(data@),
    {
        if data.len() != 272 {
            return None;
        }
        let code = read_u128(data, 0);
        if code > 5 {
            return None;
        }
        let state = match LoanState::from_code(code) {
            Some(s) => s,
            None => {
                return None;
            },
        };
        Some(
            LendingContract {
                state,
                collateral_token: read_id(data, 16),
                collateral_amount: read_u128(data, 48),
                loan_token: read_id(data, 64),
                loan_amount: read_u128(data, 96),
                duration_blocks: read_u128(data, 112),
                apr_bps: read_u128(data, 128),
                repayment_amount: read_u128(data, 144),
                loan_start_block: read_u128(data, 160),
                repayment_deadline: read_u128(data, 176),
                repayment_escrow: read_u128(data, 192),
                auth_token: read_id(data, 208),
                debitor_auth_token: read_id(data, 240),
            },
        )
    }
}

impl LendingContract {
    /// An `InitWithLoanAmount` call behaved as specified: on success the
    /// offer stands, funded by the principal, with the refunds and the
    /// creditor's capability token emitted; on failure the named revert
    /// in check order and no change.
    pub open spec fn init_loan_post(
        pre: LendingContract,
        post: LendingContract,
        ctx: CallContext,
        collateral_token: AlkaneId,
        collateral_amount: u128,
        loan_token: AlkaneId,
        loan_amount: u128,
        duration_blocks: u128,
        apr_bps: u128,
        r: Result<CallResponse, CoreError>,
    ) -> bool {
        match r {
            Ok(resp) => {
                &&& pre.init_error(
                    ctx,
                    collateral_token,
                    collateral_amount,
                    loan_token,
                    loan_amount,
                    duration_blocks,
                    apr_bps,
                ) is None
                &&& post == LendingContract::offer_made(
                    ctx,
                    collateral_token,
                    collateral_amount,
                    loan_token,
                    loan_amount,
                    duration_blocks,
                    apr_bps,
                )
                &&& resp.alkanes@ =~= collected_refunds(
                    ctx.incoming_alkanes@,
                    loan_token,
                    loan_amount,
                ).push(AlkaneTransfer { id: ctx.auth_token, value: 1 })
                &&& resp.data@ =~= Seq::<u8>::empty()
            },
            Err(e) => {
                &&& Some(e) == pre.init_error(
                    ctx,
                    collateral_token,
                    collateral_amount,
                    loan_token,
                    loan_amount,
                    duration_blocks,
                    apr_bps,
                )
                &&& post == pre
            },
        }
    }

    /// An `InitWithCollateralAmount` call behaved as specified: on
    /// success the debitor-first offer stands, funded by the collateral,
    /// with the refunds and the debitor's capability token emitted; on
    /// failure the named revert in check order and no change.
    pub open spec fn init_collateral_post(
        pre: LendingContract,
        post: LendingContract,
        ctx: CallContext,
        collateral_token: AlkaneId,
        collateral_amount: u128,
        loan_token: AlkaneId,
        loan_amount: u128,
        duration_blocks: u128,
        apr_bps: u128,
        r: Result<CallResponse, CoreError>,
    ) -> bool {
        match r {
            Ok(resp) => {
                &&& pre.init_collateral_error(
                    ctx,
                    collateral_token,
                    collateral_amount,
                    loan_token,
                    loan_amount,
                    duration_blocks,
                    apr_bps,
                ) is None
                &&& post == LendingContract::collateral_offer_made(
                    ctx,
                    collateral_token,
                    collateral_amount,
                    loan_token,
                    loan_amount,
                    duration_blocks,
                    apr_bps,
                )
                &&& resp.alkanes@ =~= collected_refunds(
                    ctx.incoming_alkanes@,
                    collateral_token,
                    collateral_amount,
                ).push(AlkaneTransfer { id: ctx.auth_token, value: 1 })
                &&& resp.data@ =~= Seq::<u8>::empty()
            },
            Err(e) => {
                &&& Some(e) == pre.init_collateral_error(
                    ctx,
                    collateral_token,
                    collateral_amount,
                    loan_token,
                    loan_amount,
                    duration_blocks,
                    apr_bps,
                )
                &&& post == pre
            },
        }
    }

    /// A `Take` call behaved as specified: on success the loan is active
    /// with its deadline set, the refunds and the principal emitted; on
    /// failure the named revert and no change.
    pub open spec fn take_post(
        pre: LendingContract,
        post: LendingContract,
        ctx: CallContext,
        r: Result<CallResponse, CoreError>,
    ) -> bool {
        match r {
            Ok(resp) => {
                &&& pre.take_error(ctx) is None
                &&& post == LendingContract {
                    state: LoanState::Active,
                    loan_start_block: ctx.current_block,
                    repayment_deadline: (ctx.current_block + pre.duration_blocks) as u128,
                    ..pre
                }
                &&& resp.alkanes@ =~= collected_refunds(
                    ctx.incoming_alkanes@,
                    pre.collateral_token,
                    pre.collateral_amount,
                ).push(AlkaneTransfer { id: pre.loan_token, value: pre.loan_amount })
                &&& resp.data@ =~= Seq::<u8>::empty()
            },
            Err(e) => {
                &&& Some(e) == pre.take_error(ctx)
                &&& post == pre
            },
        }
    }

    /// A `FundLoan` call behaved as specified: on success the loan is
    /// active with its deadline set, the refunds, the principal and the
    /// creditor's capability token emitted; on failure the named revert
    /// and no change.
    pub open spec fn fund_post(
        pre: LendingContract,
        post: LendingContract,
        ctx: CallContext,
        r: Result<CallResponse, CoreError>,
    ) -> bool {
        match r {
            Ok(resp) => {
                &&& pre.fund_error(ctx) is None
                &&& post == LendingContract {
                    state: LoanState::Active,
                    loan_start_block: ctx.current_block,
                    repayment_deadline: (ctx.current_block + pre.duration_blocks) as u128,
                    auth_token: ctx.auth_token,
                    ..pre
                }
                &&& resp.alkanes@ =~= collected_refunds(
                    ctx.incoming_alkanes@,
                    pre.loan_token,
                    pre.loan_amount,
                ).push(AlkaneTransfer { id: pre.loan_token, value: pre.loan_amount }).push(
                    AlkaneTransfer { id: ctx.auth_token, value: 1 },
                )
                &&& resp.data@ =~= Seq::<u8>::empty()
            },
            Err(e) => {
                &&& Some(e) == pre.fund_error(ctx)
                &&& post == pre
            },
        }
    }

    /// A `Cancel` call behaved as specified: on success the contract is
    /// blank again and everything incoming plus the escrowed deposit is
    /// returned; on failure the named revert and no change.
    pub open spec fn cancel_post(
        pre: LendingContract,
        post: LendingContract,
        ctx: CallContext,
        r: Result<CallResponse, CoreError>,
    ) -> bool {
        match r {
            Ok(resp) => {
                &&& pre.cancel_error(ctx) is None
                &&& post == LendingContract::initial()
                &&& resp.alkanes@ =~= ctx.incoming_alkanes@.push(pre.escrowed_deposit())
                &&& resp.data@ =~= Seq::<u8>::empty()
            },
            Err(e) => {
                &&& Some(e) == pre.cancel_error(ctx)
                &&& post == pre
            },
        }
    }

    /// A `Repay` call behaved as specified: on success the loan is
    /// repaid, the repayment escrowed, the refunds and the full
    /// collateral emitted; on failure the named revert and no change.
    pub open spec fn repay_post(
        pre: LendingContract,
        post: LendingContract,
        ctx: CallContext,
        r: Result<CallResponse, CoreError>,
    ) -> bool {
        match r {
            Ok(resp) => {
                &&& pre.repay_error(ctx) is None
                &&& post == LendingContract {
                    state: LoanState::Repaid,
                    repayment_escrow: pre.repayment_amount,
                    ..pre
                }
                &&& resp.alkanes@ =~= collected_refunds(
                    ctx.incoming_alkanes@,
                    pre.loan_token,
                    pre.repayment_amount,
                ).push(
                    AlkaneTransfer { id: pre.collateral_token, value: pre.collateral_amount },
                )
                &&& resp.data@ =~= Seq::<u8>::empty()
            },
            Err(e) => {
                &&& Some(e) == pre.repay_error(ctx)
                &&& post == pre
            },
        }
    }

    /// A `ClaimDefaultedCollateral` call behaved as specified: on success
    /// the loan is defaulted and the collateral emitted on top of the
    /// forwarded transfers; on failure the named revert and no change.
    pub open spec fn claim_defaulted_post(
        pre: LendingContract,
        post: LendingContract,
        ctx: CallContext,
        r: Result<CallResponse, CoreError>,
    ) -> bool {
        match r {
            Ok(resp) => {
                &&& pre.claim_defaulted_error(ctx) is None
                &&& post == LendingContract { state: LoanState::Defaulted, ..pre }
                &&& resp.alkanes@ =~= ctx.incoming_alkanes@.push(
                    AlkaneTransfer { id: pre.collateral_token, value: pre.collateral_amount },
                )
                &&& resp.data@ =~= Seq::<u8>::empty()
            },
            Err(e) => {
                &&& Some(e) == pre.claim_defaulted_error(ctx)
                &&& post == pre
            },
        }
    }

    /// A `ClaimRepayment` call behaved as specified: on success the
    /// escrow is emptied and its content emitted on top of the forwarded
    /// transfers; on failure the named revert and no change.
    pub open spec fn claim_repayment_post(
        pre: LendingContract,
        post: LendingContract,
        ctx: CallContext,
        r: Result<CallResponse, CoreError>,
    ) -> bool {
        match r {
            Ok(resp) => {
                &&& pre.claim_repayment_error(ctx) is None
                &&& post == LendingContract { repayment_escrow: 0, ..pre }
                &&& resp.alkanes@ =~= ctx.incoming_alkanes@.push(
                    AlkaneTransfer { id: pre.loan_token, value: pre.repayment_escrow },
                )
                &&& resp.data@ =~= Seq::<u8>::empty()
            },
            Err(e) => {
                &&& Some(e) == pre.claim_repayment_error(ctx)
                &&& post == pre
            },
        }
    }
}

/// One opcode of the lending contract, as a tagged union.
///
/// The host hands the contract an opcode with plain integer arguments;
/// this type is their parsed form, and [`LendingContract::execute`] is
/// the single dispatch point from a command to a state transition.  The
/// two offer-creation commands keep the opcodes of the original message
/// table (0 and 1); the remaining lifecycle commands and queries follow.
pub enum LendingContractMessage {
    InitWithLoanAmount {
        collateral_token: AlkaneId,
        collateral_amount: u128,
        loan_token: AlkaneId,
        loan_amount: u128,
        duration_blocks: u128,
        apr_bps: u128,
    },
    InitWithCollateralAmount {
        collateral_token: AlkaneId,
        collateral_amount: u128,
        loan_token: AlkaneId,
        loan_amount: u128,
        duration_blocks: u128,
        apr_bps: u128,
    },
    Repay,
    ClaimDefaultedCollateral,
    Cancel,
    ClaimRepayment,
    Take,
    FundLoan,
    ForwardIncoming,
    GetLoanDetails,
    GetState,
    GetRepaymentAmount,
    GetTimeRemaining,
    GetName,
    GetSymbol,
}

impl LendingContractMessage {
    /// The numeric opcode of this command in the host's dispatch table.
    pub fn opcode(&self) -> (c: u128)
        ensures
            c == self.opcode_spec(),
    {
        match self {
            LendingContractMessage::InitWithLoanAmount { .. } => 0,
            LendingContractMessage::InitWithCollateralAmount { .. } => 1,
            LendingContractMessage::Repay => 2,
            LendingContractMessage::ClaimDefaultedCollateral => 3,
            LendingContractMessage::Cancel => 4,
            LendingContractMessage::ClaimRepayment => 5,
            LendingContractMessage::Take => 6,
            LendingContractMessage::FundLoan => 7,
            LendingContractMessage::ForwardIncoming => 50,
            LendingContractMessage::GetLoanDetails => 90,
            LendingContractMessage::GetState => 91,
            LendingContractMessage::GetRepaymentAmount => 92,
            LendingContractMessage::GetTimeRemaining => 93,
            LendingContractMessage::GetName => 99,
            LendingContractMessage::GetSymbol => 100,
        }
    }

    /// The opcode of each command.
    pub open spec fn opcode_spec(&self) -> u128 {
        match self {
            LendingContractMessage::InitWithLoanAmount { .. } => 0,
            LendingContractMessage::InitWithCollateralAmount { .. } => 1,
            LendingContractMessage::Repay => 2,
            LendingContractMessage::ClaimDefaultedCollateral => 3,
            LendingContractMessage::Cancel => 4,
            LendingContractMessage::ClaimRepayment => 5,
            LendingContractMessage::Take => 6,
            LendingContractMessage::FundLoan => 7,
            LendingContractMessage::ForwardIncoming => 50,
            LendingContractMessage::GetLoanDetails => 90,
            LendingContractMessage::GetState => 91,
            LendingContractMessage::GetRepaymentAmount => 92,
            LendingContractMessage::GetTimeRemaining => 93,
            LendingContractMessage::GetName => 99,
            LendingContractMessage::GetSymbol => 100,
        }
    }
}

impl LendingContract {
    /// Dispatch one parsed command: the pure function from state, command
    /// and call context to the next state and the outgoing effects.
    ///
    /// Each arm carries the full contract of the entry point it
    /// dispatches to — the new state, every outgoing transfer and the
    /// revert condition — so the guarantees reach the host, which settles
    /// transfers from this function's response.  An `Err` leaves the
    /// state untouched and the host reverts the call.
    pub fn execute(&mut self, ctx: &CallContext, msg: &LendingContractMessage) -> (r: Result<
        CallResponse,
        CoreError,
    >)
        requires
            old(self).wf(),
        ensures
            final(self).wf(),
            match *msg {
                LendingContractMessage::InitWithLoanAmount {
                    collateral_token,
                    collateral_amount,
                    loan_token,
                    loan_amount,
                    duration_blocks,
                    apr_bps,
                } => LendingContract::init_loan_post(
                    *old(self),
                    *final(self),
                    *ctx,
                    collateral_token,
                    collateral_amount,
                    loan_token,
                    loan_amount,
                    duration_blocks,
                    apr_bps,
                    r,
                ),
                LendingContractMessage::InitWithCollateralAmount {
                    collateral_token,
                    collateral_amount,
                    loan_token,
                    loan_amount,
                    duration_blocks,
                    apr_bps,
                } => LendingContract::init_collateral_post(
                    *old(self),
                    *final(self),
                    *ctx,
                    collateral_token,
                    collateral_amount,
                    loan_token,
                    loan_amount,
                    duration_blocks,
                    apr_bps,
                    r,
                ),
                LendingContractMessage::Take => LendingContract::take_post(
                    *old(self),
                    *final(self),
                    *ctx,
                    r,
                ),
                LendingContractMessage::FundLoan => LendingContract::fund_post(
                    *old(self),
                    *final(self),
                    *ctx,
                    r,
                ),
                LendingContractMessage::Repay => LendingContract::repay_post(
                    *old(self),
                    *final(self),
                    *ctx,
                    r,
                ),
                LendingContractMessage::ClaimDefaultedCollateral
                    => LendingContract::claim_defaulted_post(*old(self), *final(self), *ctx, r),
                LendingContractMessage::Cancel => LendingContract::cancel_post(
                    *old(self),
                    *final(self),
                    *ctx,
                    r,
                ),
                LendingContractMessage::ClaimRepayment => LendingContract::claim_repayment_post(
                    *old(self),
                    *final(self),
                    *ctx,
                    r,
                ),
                LendingContractMessage::ForwardIncoming => *final(self) == *old(self) && match r {
                    Ok(resp) => resp.alkanes@ =~= ctx.incoming_alkanes@ && resp.data@ =~= Seq::<
                        u8,
                    >::empty(),
                    Err(_) => false,
                },
                LendingContractMessage::GetLoanDetails => *final(self) == *old(self) && match r {
                    Ok(resp) => resp.alkanes@ =~= ctx.incoming_alkanes@ && resp.data@ =~= old(
                        self,
                    ).details_bytes(),
                    Err(_) => false,
                },
                LendingContractMessage::GetState => *final(self) == *old(self) && match r {
                    Ok(resp) => resp.alkanes@ =~= ctx.incoming_alkanes@ && resp.data@
                        =~= spec_u128_to_le_bytes(old(self).state.code_spec()),
                    Err(_) => false,
                },
                LendingContractMessage::GetName => *final(self) == *old(self) && match r {
                    Ok(resp) => resp.alkanes@ =~= ctx.incoming_alkanes@ && resp.data@
                        == "Lending Contract".spec_bytes(),
                    Err(_) => false,
                },
                LendingContractMessage::GetSymbol => *final(self) == *old(self) && match r {
                    Ok(resp) => resp.alkanes@ =~= ctx.incoming_alkanes@ && resp.data@
                        == "LEND".spec_bytes(),
                    Err(_) => false,
                },
                LendingContractMessage::GetRepaymentAmount => *final(self) == *old(self) && match r {
                    Ok(resp) => old(self).state != LoanState::Uninitialized && resp.alkanes@
                        =~= ctx.incoming_alkanes@ && resp.data@ =~= spec_u128_to_le_bytes(
                        old(self).repayment_amount,
                    ),
                    Err(e) => old(self).state == LoanState::Uninitialized && e
                        == CoreError::LoanOfferNotAvailable,
                },
                LendingContractMessage::GetTimeRemaining => *final(self) == *old(self) && match r {
                    Ok(resp) => old(self).state == LoanState::Active && resp.alkanes@
                        =~= ctx.incoming_alkanes@ && resp.data@ =~= spec_u128_to_le_bytes(
                        if ctx.current_block <= old(self).repayment_deadline {
                            (old(self).repayment_deadline - ctx.current_block) as u128
                        } else {
                            0
                        },
                    ),
                    Err(e) => old(self).state != LoanState::Active && e == CoreError::NoActiveLoan,
                },
            },
    {
        match msg {
            LendingContractMessage::InitWithLoanAmount {
                collateral_token,
                collateral_amount,
                loan_token,
                loan_amount,
                duration_blocks,
                apr_bps,
            } => self.init_with_loan_amount(
                ctx,
                *collateral_token,
                *collateral_amount,
                *loan_token,
                *loan_amount,
                *duration_blocks,
                *apr_bps,
            ),
            LendingContractMessage::InitWithCollateralAmount {
                collateral_token,
                collateral_amount,
                loan_token,
                loan_amount,
                duration_blocks,
                apr_bps,
            } => self.init_with_collateral_amount(
                ctx,
                *collateral_token,
                *collateral_amount,
                *loan_token,
                *loan_amount,
                *duration_blocks,
                *apr_bps,
            ),
            LendingContractMessage::Take => self.take(ctx),
            LendingContractMessage::FundLoan => self.fund_loan(ctx),
            LendingContractMessage::Repay => self.repay(ctx),
            LendingContractMessage::ClaimDefaultedCollateral => self.claim_defaulted_collateral(
                ctx,
            ),
            LendingContractMessage::Cancel => self.cancel(ctx),
            LendingContractMessage::ClaimRepayment => self.claim_repayment(ctx),
            LendingContractMessage::ForwardIncoming => Ok(self.forward_incoming(ctx)),
            LendingContractMessage::GetLoanDetails => Ok(self.get_loan_details(ctx)),
            LendingContractMessage::GetState => Ok(self.get_state(ctx)),
            LendingContractMessage::GetRepaymentAmount => self.get_repayment_amount(ctx),
            LendingContractMessage::GetTimeRemaining => self.get_time_remaining(ctx),
            LendingContractMessage::GetName => Ok(self.get_name(ctx)),
            LendingContractMessage::GetSymbol => Ok(self.get_symbol(ctx)),
        }
    }
}

/// Round trip through the persisted record: decoding an encoded contract
/// restores it exactly.
pub proof fn lemma_record_round_trip(c: LendingContract)
    ensures
        LendingContract::decode_record_spec(c.record_bytes()) == Some(c),
{
    lemma_auto_spec_u128_to_from_le_bytes();
    let data = c.record_bytes();
    assert(data.len() == 272);
    assert(data.subrange(0, 16) =~= spec_u128_to_le_bytes(c.state.code_spec()));
    assert(data.subrange(16, 32) =~= spec_u128_to_le_bytes(c.collateral_token.block));
    assert(data.subrange(32, 48) =~= spec_u128_to_le_bytes(c.collateral_token.tx));
    assert(data.subrange(48, 64) =~= spec_u128_to_le_bytes(c.collateral_amount));
    assert(data.subrange(64, 80) =~= spec_u128_to_le_bytes(c.loan_token.block));
    assert(data.subrange(80, 96) =~= spec_u128_to_le_bytes(c.loan_token.tx));
    assert(data.subrange(96, 112) =~= spec_u128_to_le_bytes(c.loan_amount));
    assert(data.subrange(112, 128) =~= spec_u128_to_le_bytes(c.duration_blocks));
    assert(data.subrange(128, 144) =~= spec_u128_to_le_bytes(c.apr_bps));
    assert(data.subrange(144, 160) =~= spec_u128_to_le_bytes(c.repayment_amount));
    assert(data.subrange(160, 176) =~= spec_u128_to_le_bytes(c.loan_start_block));
    assert(data.subrange(176, 192) =~= spec_u128_to_le_bytes(c.repayment_deadline));
    assert(data.subrange(192, 208) =~= spec_u128_to_le_bytes(c.repayment_escrow));
    assert(data.subrange(208, 224) =~= spec_u128_to_le_bytes(c.auth_token.block));
    assert(data.subrange(224, 240) =~= spec_u128_to_le_bytes(c.auth_token.tx));
    assert(data.subrange(240, 256) =~= spec_u128_to_le_bytes(c.debitor_auth_token.block));
    assert(data.subrange(256, 272) =~= spec_u128_to_le_bytes(c.debitor_auth_token.tx));
}

} // verus!
