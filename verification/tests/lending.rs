use alkanes_defi::errors::CoreError;
use alkanes_defi::ids::{AlkaneId, AlkaneTransfer, AlkaneTransferParcel, CallContext};
use alkanes_defi::loan::{LendingContract, LendingContractMessage, LoanState};

const COLLATERAL_AMOUNT: u128 = 1_000_000_000;
const LOAN_AMOUNT: u128 = 500_000_000;
const DURATION_BLOCKS: u128 = 5256;
const APR_500_BPS: u128 = 500;
const REPAYMENT: u128 = 502_500_000;

fn lending_id() -> AlkaneId {
    AlkaneId::new(2, 10)
}

/// The capability token the host's factory mints for the creditor-first
/// offer creation in these tests.
fn creditor_auth() -> AlkaneId {
    AlkaneId::new(2, 100)
}

/// The capability token minted for the debitor-first offer creation.
fn debitor_auth() -> AlkaneId {
    AlkaneId::new(2, 101)
}

/// The capability token minted when a creditor funds a debitor-first
/// offer.
fn funder_auth() -> AlkaneId {
    AlkaneId::new(2, 102)
}

fn collateral_token() -> AlkaneId {
    AlkaneId::new(2, 2)
}

fn loan_token() -> AlkaneId {
    AlkaneId::new(2, 3)
}

fn ctx(transfers: Vec<AlkaneTransfer>, block: u128) -> CallContext {
    ctx_minting(transfers, block, creditor_auth())
}

/// A call context whose host-minted capability token is `auth` (read only
/// by the offer-creation and funding entry points).
fn ctx_minting(transfers: Vec<AlkaneTransfer>, block: u128, auth: AlkaneId) -> CallContext {
    CallContext {
        myself: lending_id(),
        incoming_alkanes: AlkaneTransferParcel(transfers),
        current_block: block,
        auth_token: auth,
    }
}

fn transfer(id: AlkaneId, value: u128) -> AlkaneTransfer {
    AlkaneTransfer { id, value }
}

/// Deploy and fund the offer: state moves to WaitingForTake and the
/// capability token is minted to the creditor.
fn setup_waiting() -> LendingContract {
    let mut c = LendingContract::new();
    let context = ctx(vec![transfer(loan_token(), LOAN_AMOUNT)], 840_000);
    let resp = c
        .init_with_loan_amount(
            &context,
            collateral_token(),
            COLLATERAL_AMOUNT,
            loan_token(),
            LOAN_AMOUNT,
            DURATION_BLOCKS,
            APR_500_BPS,
        )
        .unwrap();
    // exact principal attached: the refund is zero, then the capability
    // token
    assert_eq!(
        resp.alkanes.0,
        vec![transfer(loan_token(), 0), transfer(creditor_auth(), 1)]
    );
    c
}

fn setup_active(take_block: u128) -> LendingContract {
    let mut c = setup_waiting();
    let context = ctx(vec![transfer(collateral_token(), COLLATERAL_AMOUNT)], take_block);
    let resp = c.take(&context).unwrap();
    assert_eq!(
        resp.alkanes.0,
        vec![
            transfer(collateral_token(), 0),
            transfer(loan_token(), LOAN_AMOUNT)
        ]
    );
    c
}

#[test]
fn loan_lifecycle_reaches_repaid_and_pays_the_creditor() {
    // offer -> WaitingForTake(1)
    let c = setup_waiting();
    assert_eq!(c.state, LoanState::WaitingForTake);
    assert_eq!(c.repayment_amount, REPAYMENT);

    // take -> Active(2) with deadline = take block + duration
    let mut c = setup_active(840_010);
    assert_eq!(c.state, LoanState::Active);
    assert_eq!(c.loan_start_block, 840_010);
    assert_eq!(c.repayment_deadline, 840_010 + DURATION_BLOCKS);

    // repay before the deadline -> Repaid(3), collateral returned in full
    let context = ctx(vec![transfer(loan_token(), REPAYMENT)], 840_013);
    let resp = c.repay(&context).unwrap();
    assert_eq!(c.state, LoanState::Repaid);
    assert_eq!(
        resp.alkanes.0,
        vec![
            transfer(loan_token(), 0),
            transfer(collateral_token(), COLLATERAL_AMOUNT)
        ]
    );

    // the creditor claims the escrowed repayment with the capability token
    let context = ctx(vec![transfer(creditor_auth(), 1)], 840_014);
    let resp = c.claim_repayment(&context).unwrap();
    assert_eq!(
        resp.alkanes.0,
        vec![transfer(creditor_auth(), 1), transfer(loan_token(), REPAYMENT)]
    );
    assert_eq!(c.repayment_escrow, 0);

    // a second claim pays nothing further
    let context = ctx(vec![transfer(creditor_auth(), 1)], 840_015);
    let resp = c.claim_repayment(&context).unwrap();
    assert_eq!(
        resp.alkanes.0,
        vec![transfer(creditor_auth(), 1), transfer(loan_token(), 0)]
    );
}

#[test]
fn default_scenario_past_the_deadline() {
    let mut c = setup_active(840_010);
    let deadline = 840_010 + DURATION_BLOCKS;

    // repaying after the deadline fails
    let context = ctx(vec![transfer(loan_token(), REPAYMENT)], deadline + 1);
    let e = c.repay(&context).unwrap_err();
    assert_eq!(e.message(), "Loan has defaulted - deadline passed");
    assert_eq!(c.state, LoanState::Active);

    // a claim without the capability token fails
    let context = ctx(vec![], deadline + 1);
    let e = c.claim_defaulted_collateral(&context).unwrap_err();
    assert_eq!(e.message(), "Auth token is not in incoming alkanes");

    // the creditor claims the collateral: Defaulted(4)
    let context = ctx(vec![transfer(creditor_auth(), 1)], deadline + 1);
    let resp = c.claim_defaulted_collateral(&context).unwrap();
    assert_eq!(c.state, LoanState::Defaulted);
    assert_eq!(
        resp.alkanes.0,
        vec![
            transfer(creditor_auth(), 1),
            transfer(collateral_token(), COLLATERAL_AMOUNT)
        ]
    );
}

#[test]
fn claim_before_the_deadline_is_rejected() {
    let mut c = setup_active(840_010);
    let context = ctx(vec![transfer(creditor_auth(), 1)], 840_010 + DURATION_BLOCKS);
    let e = c.claim_defaulted_collateral(&context).unwrap_err();
    assert_eq!(e, CoreError::NotDefaultedYet);
    assert_eq!(e.message(), "not defaulted yet");
}

#[test]
fn second_initialization_is_rejected() {
    let mut c = setup_waiting();
    let context = ctx(vec![transfer(loan_token(), LOAN_AMOUNT)], 840_001);
    let e = c
        .init_with_loan_amount(
            &context,
            collateral_token(),
            COLLATERAL_AMOUNT,
            loan_token(),
            LOAN_AMOUNT,
            DURATION_BLOCKS,
            APR_500_BPS,
        )
        .unwrap_err();
    assert_eq!(e.message(), "already initialized");
}

#[test]
fn offer_with_shortfall_is_rejected() {
    let mut c = LendingContract::new();
    let context = ctx(vec![transfer(loan_token(), LOAN_AMOUNT - 1)], 840_000);
    let e = c
        .init_with_loan_amount(
            &context,
            collateral_token(),
            COLLATERAL_AMOUNT,
            loan_token(),
            LOAN_AMOUNT,
            DURATION_BLOCKS,
            APR_500_BPS,
        )
        .unwrap_err();
    assert_eq!(e.message(), "Insufficient tokens");
    assert_eq!(c.state, LoanState::Uninitialized);
}

#[test]
fn offer_with_uncomputable_repayment_is_rejected_eagerly() {
    // the griefing case: a repayment that could never be computed is
    // rejected at offer time, before a debitor can be trapped
    let mut c = LendingContract::new();
    let principal: u128 = 10_000_000_000_000;
    let apr = u128::MAX / principal + 1;
    let context = ctx(vec![transfer(loan_token(), principal)], 840_000);
    let e = c
        .init_with_loan_amount(
            &context,
            collateral_token(),
            COLLATERAL_AMOUNT,
            loan_token(),
            principal,
            1,
            apr,
        )
        .unwrap_err();
    assert_eq!(e.message(), "Overflow in interest calculation");
    assert_eq!(c.state, LoanState::Uninitialized);
}

#[test]
fn offer_with_zero_terms_or_equal_tokens_is_rejected() {
    let mut c = LendingContract::new();
    let context = ctx(vec![transfer(loan_token(), LOAN_AMOUNT)], 840_000);
    let e = c
        .init_with_loan_amount(
            &context,
            collateral_token(),
            COLLATERAL_AMOUNT,
            loan_token(),
            LOAN_AMOUNT,
            0,
            APR_500_BPS,
        )
        .unwrap_err();
    assert_eq!(e, CoreError::ZeroAmountOrDuration);
    let context = ctx(vec![transfer(loan_token(), LOAN_AMOUNT)], 840_000);
    let e = c
        .init_with_loan_amount(
            &context,
            loan_token(),
            COLLATERAL_AMOUNT,
            loan_token(),
            LOAN_AMOUNT,
            DURATION_BLOCKS,
            APR_500_BPS,
        )
        .unwrap_err();
    assert_eq!(e, CoreError::SameTokenPair);
}

#[test]
fn take_with_huge_duration_overflows_the_deadline() {
    // a one-unit loan at the tiniest rate keeps the interest computable,
    // so the offer stands, but taking it overflows the deadline
    let mut c = LendingContract::new();
    let context = ctx(vec![transfer(loan_token(), 1)], 840_000);
    c.init_with_loan_amount(
        &context,
        collateral_token(),
        COLLATERAL_AMOUNT,
        loan_token(),
        1,
        u128::MAX,
        1,
    )
    .unwrap();
    let context = ctx(vec![transfer(collateral_token(), COLLATERAL_AMOUNT)], 840_000);
    let e = c.take(&context).unwrap_err();
    assert_eq!(e.message(), "Overflow calculating deadline");
}

#[test]
fn cancel_refunds_the_principal_and_reopens_the_contract() {
    let mut c = setup_waiting();
    // without the capability token: rejected
    let context = ctx(vec![], 840_001);
    let e = c.cancel(&context).unwrap_err();
    assert_eq!(e, CoreError::AuthTokenMissing);
    // with it: everything incoming comes back plus the principal
    let context = ctx(vec![transfer(creditor_auth(), 1)], 840_002);
    let resp = c.cancel(&context).unwrap();
    assert_eq!(
        resp.alkanes.0,
        vec![transfer(creditor_auth(), 1), transfer(loan_token(), LOAN_AMOUNT)]
    );
    assert_eq!(c.state, LoanState::Uninitialized);
    // the contract can be initialized again
    let context = ctx(vec![transfer(loan_token(), LOAN_AMOUNT)], 840_003);
    assert!(c
        .init_with_loan_amount(
            &context,
            collateral_token(),
            COLLATERAL_AMOUNT,
            loan_token(),
            LOAN_AMOUNT,
            DURATION_BLOCKS,
            APR_500_BPS,
        )
        .is_ok());
}

#[test]
fn wrong_state_operations_are_rejected_before_any_token_moves() {
    let mut c = LendingContract::new();
    let context = ctx(vec![], 840_000);
    assert_eq!(c.repay(&context).unwrap_err().message(), "No active loan to repay");
    let context = ctx(vec![], 840_000);
    assert_eq!(
        c.take(&context).unwrap_err().message(),
        "Loan offer is not available"
    );
    let context = ctx(vec![], 840_000);
    assert_eq!(
        c.cancel(&context).unwrap_err(),
        CoreError::LoanOfferNotAvailable
    );
    let context = ctx(vec![], 840_000);
    assert_eq!(c.claim_repayment(&context).unwrap_err(), CoreError::NothingToClaim);
    let context = ctx(vec![], 840_000);
    assert_eq!(
        c.claim_defaulted_collateral(&context).unwrap_err(),
        CoreError::NoActiveLoan
    );
}

#[test]
fn excess_and_unrelated_tokens_are_refunded_on_take() {
    let mut c = setup_waiting();
    let stray = AlkaneId::new(7, 7);
    let context = ctx(
        vec![
            transfer(stray, 42),
            transfer(collateral_token(), COLLATERAL_AMOUNT + 5),
            transfer(collateral_token(), 10),
        ],
        840_010,
    );
    let resp = c.take(&context).unwrap();
    assert_eq!(
        resp.alkanes.0,
        vec![
            transfer(stray, 42),
            transfer(collateral_token(), 15),
            transfer(loan_token(), LOAN_AMOUNT)
        ]
    );
}

fn le_bytes(v: u128) -> Vec<u8> {
    v.to_le_bytes().to_vec()
}

#[test]
fn loan_details_layout_is_fixed_per_state() {
    let c = LendingContract::new();
    let context = ctx(vec![], 840_000);
    let resp = c.get_loan_details(&context);
    assert_eq!(resp.data, le_bytes(0));

    let c = setup_waiting();
    let context = ctx(vec![], 840_000);
    let resp = c.get_loan_details(&context);
    assert_eq!(resp.data.len(), 144);
    let mut expected = le_bytes(1);
    expected.extend(le_bytes(2)); // collateral token block
    expected.extend(le_bytes(2)); // collateral token tx
    expected.extend(le_bytes(COLLATERAL_AMOUNT));
    expected.extend(le_bytes(2)); // loan token block
    expected.extend(le_bytes(3)); // loan token tx
    expected.extend(le_bytes(LOAN_AMOUNT));
    expected.extend(le_bytes(DURATION_BLOCKS));
    expected.extend(le_bytes(APR_500_BPS));
    assert_eq!(resp.data, expected);

    let c = setup_active(840_010);
    let context = ctx(vec![], 840_011);
    let resp = c.get_loan_details(&context);
    assert_eq!(resp.data.len(), 176);
    assert_eq!(
        resp.data[144..160],
        le_bytes(840_010 + DURATION_BLOCKS)[..]
    );
    assert_eq!(resp.data[160..176], le_bytes(840_010)[..]);
}

#[test]
fn state_and_amount_queries_answer_in_little_endian() {
    let c = setup_active(840_010);
    let context = ctx(vec![], 840_011);
    assert_eq!(c.get_state(&context).data, le_bytes(2));
    let context = ctx(vec![], 840_011);
    assert_eq!(
        c.get_repayment_amount(&context).unwrap().data,
        le_bytes(REPAYMENT)
    );
    let context = ctx(vec![], 840_012);
    assert_eq!(
        c.get_time_remaining(&context).unwrap().data,
        le_bytes(DURATION_BLOCKS - 2)
    );
    // past the deadline the remaining time is zero
    let context = ctx(vec![], 840_010 + DURATION_BLOCKS + 50);
    assert_eq!(c.get_time_remaining(&context).unwrap().data, le_bytes(0));
}

#[test]
fn name_and_symbol_round_trip_as_bytes() {
    let c = LendingContract::new();
    let context = ctx(vec![transfer(loan_token(), 9)], 840_000);
    let resp = c.get_name(&context);
    assert_eq!(resp.data, b"Lending Contract".to_vec());
    assert_eq!(resp.alkanes.0, vec![transfer(loan_token(), 9)]);
    let context = ctx(vec![], 840_000);
    assert_eq!(c.get_symbol(&context).data, b"LEND".to_vec());
}

#[test]
fn forward_incoming_returns_everything_unchanged() {
    let c = LendingContract::new();
    let stray = AlkaneId::new(9, 1);
    let context = ctx(vec![transfer(stray, 5), transfer(loan_token(), 7)], 840_000);
    let resp = c.forward_incoming(&context);
    assert_eq!(
        resp.alkanes.0,
        vec![transfer(stray, 5), transfer(loan_token(), 7)]
    );
    assert!(resp.data.is_empty());
}

#[test]
fn command_dispatch_follows_the_opcode_table() {
    assert_eq!(LendingContractMessage::Repay.opcode(), 2);
    assert_eq!(LendingContractMessage::ClaimDefaultedCollateral.opcode(), 3);
    assert_eq!(LendingContractMessage::Cancel.opcode(), 4);
    assert_eq!(LendingContractMessage::ClaimRepayment.opcode(), 5);
    assert_eq!(LendingContractMessage::Take.opcode(), 6);
    assert_eq!(LendingContractMessage::FundLoan.opcode(), 7);
    assert_eq!(LendingContractMessage::ForwardIncoming.opcode(), 50);
    assert_eq!(LendingContractMessage::GetLoanDetails.opcode(), 90);
    assert_eq!(LendingContractMessage::GetName.opcode(), 99);

    // the same lifecycle as the direct calls, through the dispatcher
    let mut c = LendingContract::new();
    let init = LendingContractMessage::InitWithLoanAmount {
        collateral_token: collateral_token(),
        collateral_amount: COLLATERAL_AMOUNT,
        loan_token: loan_token(),
        loan_amount: LOAN_AMOUNT,
        duration_blocks: DURATION_BLOCKS,
        apr_bps: APR_500_BPS,
    };
    assert_eq!(init.opcode(), 0);
    let context = ctx(vec![transfer(loan_token(), LOAN_AMOUNT)], 840_000);
    c.execute(&context, &init).unwrap();
    assert_eq!(c.state, LoanState::WaitingForTake);
    let context = ctx(vec![transfer(collateral_token(), COLLATERAL_AMOUNT)], 840_010);
    c.execute(&context, &LendingContractMessage::Take).unwrap();
    assert_eq!(c.state, LoanState::Active);
    let context = ctx(vec![], 840_011);
    let resp = c.execute(&context, &LendingContractMessage::GetState).unwrap();
    assert_eq!(resp.data, 2u128.to_le_bytes().to_vec());
    let context = ctx(vec![transfer(loan_token(), REPAYMENT)], 840_020);
    c.execute(&context, &LendingContractMessage::Repay).unwrap();
    assert_eq!(c.state, LoanState::Repaid);
}

#[test]
fn persisted_record_round_trips_through_the_codec() {
    let c = setup_active(840_010);
    let bytes = c.encode_record();
    assert_eq!(bytes.len(), 272);
    let back = LendingContract::decode_record(&bytes).unwrap();
    assert_eq!(back.state, LoanState::Active);
    assert_eq!(back.collateral_token, collateral_token());
    assert_eq!(back.collateral_amount, COLLATERAL_AMOUNT);
    assert_eq!(back.loan_token, loan_token());
    assert_eq!(back.loan_amount, LOAN_AMOUNT);
    assert_eq!(back.duration_blocks, DURATION_BLOCKS);
    assert_eq!(back.apr_bps, APR_500_BPS);
    assert_eq!(back.repayment_amount, REPAYMENT);
    assert_eq!(back.loan_start_block, 840_010);
    assert_eq!(back.repayment_deadline, 840_010 + DURATION_BLOCKS);
    assert_eq!(back.repayment_escrow, 0);
    assert_eq!(back.auth_token, creditor_auth());
    assert_eq!(back.debitor_auth_token, AlkaneId::new(0, 0));
}

#[test]
fn record_with_bad_length_or_state_code_is_rejected() {
    assert!(LendingContract::decode_record(&[0u8; 271]).is_none());
    let mut bytes = LendingContract::new().encode_record();
    bytes[0] = 6;
    assert!(LendingContract::decode_record(&bytes).is_none());
}

/// Deploy a debitor-first offer: the debitor escrows the collateral and
/// receives their capability token.
fn setup_waiting_for_loan() -> LendingContract {
    let mut c = LendingContract::new();
    let context = ctx_minting(
        vec![transfer(collateral_token(), COLLATERAL_AMOUNT)],
        840_000,
        debitor_auth(),
    );
    let resp = c
        .init_with_collateral_amount(
            &context,
            collateral_token(),
            COLLATERAL_AMOUNT,
            loan_token(),
            LOAN_AMOUNT,
            DURATION_BLOCKS,
            APR_500_BPS,
        )
        .unwrap();
    assert_eq!(
        resp.alkanes.0,
        vec![transfer(collateral_token(), 0), transfer(debitor_auth(), 1)]
    );
    c
}

#[test]
fn debitor_first_lifecycle_reaches_repaid() {
    // offer -> WaitingForLoan(5), terms fixed, repayment precomputed
    let mut c = setup_waiting_for_loan();
    assert_eq!(c.state, LoanState::WaitingForLoan);
    assert_eq!(c.state.code(), 5);
    assert_eq!(c.repayment_amount, REPAYMENT);
    assert_eq!(c.debitor_auth_token, debitor_auth());

    // a creditor funds the principal: the loan activates, the principal
    // is emitted for the debitor, and the creditor gets a fresh
    // capability token
    let context = ctx_minting(
        vec![transfer(loan_token(), LOAN_AMOUNT + 7)],
        840_010,
        funder_auth(),
    );
    let resp = c.fund_loan(&context).unwrap();
    assert_eq!(c.state, LoanState::Active);
    assert_eq!(c.loan_start_block, 840_010);
    assert_eq!(c.repayment_deadline, 840_010 + DURATION_BLOCKS);
    assert_eq!(c.auth_token, funder_auth());
    assert_eq!(
        resp.alkanes.0,
        vec![
            transfer(loan_token(), 7),
            transfer(loan_token(), LOAN_AMOUNT),
            transfer(funder_auth(), 1)
        ]
    );

    // the debitor repays and recovers the collateral
    let context = ctx(vec![transfer(loan_token(), REPAYMENT)], 840_020);
    let resp = c.repay(&context).unwrap();
    assert_eq!(c.state, LoanState::Repaid);
    assert_eq!(
        resp.alkanes.0,
        vec![
            transfer(loan_token(), 0),
            transfer(collateral_token(), COLLATERAL_AMOUNT)
        ]
    );

    // only the creditor's token claims the repayment: the debitor's does
    // not
    let context = ctx(vec![transfer(debitor_auth(), 1)], 840_021);
    let e = c.claim_repayment(&context).unwrap_err();
    assert_eq!(e, CoreError::AuthTokenMissing);
    let context = ctx(vec![transfer(funder_auth(), 1)], 840_022);
    let resp = c.claim_repayment(&context).unwrap();
    assert_eq!(
        resp.alkanes.0,
        vec![transfer(funder_auth(), 1), transfer(loan_token(), REPAYMENT)]
    );
}

#[test]
fn debitor_capability_cannot_claim_a_default() {
    let mut c = setup_waiting_for_loan();
    let context = ctx_minting(vec![transfer(loan_token(), LOAN_AMOUNT)], 840_010, funder_auth());
    c.fund_loan(&context).unwrap();
    let past = 840_010 + DURATION_BLOCKS + 1;
    // the defaulted debitor cannot use their own token to take the
    // collateral back
    let context = ctx(vec![transfer(debitor_auth(), 1)], past);
    let e = c.claim_defaulted_collateral(&context).unwrap_err();
    assert_eq!(e.message(), "Auth token is not in incoming alkanes");
    // the creditor can
    let context = ctx(vec![transfer(funder_auth(), 1)], past);
    let resp = c.claim_defaulted_collateral(&context).unwrap();
    assert_eq!(c.state, LoanState::Defaulted);
    assert_eq!(
        resp.alkanes.0,
        vec![
            transfer(funder_auth(), 1),
            transfer(collateral_token(), COLLATERAL_AMOUNT)
        ]
    );
}

#[test]
fn debitor_first_offer_can_be_cancelled_by_its_creator() {
    let mut c = setup_waiting_for_loan();
    // the creditor-side token does not cancel a debitor-first offer
    let context = ctx(vec![transfer(creditor_auth(), 1)], 840_001);
    let e = c.cancel(&context).unwrap_err();
    assert_eq!(e, CoreError::AuthTokenMissing);
    // the debitor's token does, and the collateral comes back
    let context = ctx(vec![transfer(debitor_auth(), 1)], 840_002);
    let resp = c.cancel(&context).unwrap();
    assert_eq!(c.state, LoanState::Uninitialized);
    assert_eq!(
        resp.alkanes.0,
        vec![
            transfer(debitor_auth(), 1),
            transfer(collateral_token(), COLLATERAL_AMOUNT)
        ]
    );
}

#[test]
fn funding_is_rejected_outside_the_waiting_for_loan_state() {
    let mut c = LendingContract::new();
    let context = ctx(vec![transfer(loan_token(), LOAN_AMOUNT)], 840_000);
    assert_eq!(
        c.fund_loan(&context).unwrap_err().message(),
        "Loan offer is not available"
    );
    let mut c = setup_waiting();
    let context = ctx(vec![transfer(loan_token(), LOAN_AMOUNT)], 840_001);
    assert_eq!(c.fund_loan(&context).unwrap_err(), CoreError::LoanOfferNotAvailable);
    // and a shortfall while waiting for the loan is named
    let mut c = setup_waiting_for_loan();
    let context = ctx(vec![transfer(loan_token(), LOAN_AMOUNT - 1)], 840_001);
    assert_eq!(c.fund_loan(&context).unwrap_err(), CoreError::InsufficientTokens);
}

#[test]
fn debitor_first_details_use_the_common_layout() {
    let c = setup_waiting_for_loan();
    let context = ctx(vec![], 840_001);
    let resp = c.get_loan_details(&context);
    assert_eq!(resp.data.len(), 144);
    assert_eq!(resp.data[0..16], le_bytes(5)[..]);
    // the persisted record round-trips with both capability tokens
    let bytes = c.encode_record();
    let back = LendingContract::decode_record(&bytes).unwrap();
    assert_eq!(back.state, LoanState::WaitingForLoan);
    assert_eq!(back.debitor_auth_token, debitor_auth());
}
