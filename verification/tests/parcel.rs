use alkanes_defi::errors::CoreError;
use alkanes_defi::ids::{refund_and_check_inputs, AlkaneId, AlkaneTransfer, AlkaneTransferParcel};
use alkanes_defi::math::isqrt;
use alkanes_defi::wide::{frac32, mul_u128, U256};

fn transfer(block: u128, tx: u128, value: u128) -> AlkaneTransfer {
    AlkaneTransfer { id: AlkaneId::new(block, tx), value }
}

#[test]
fn refund_returns_unrelated_tokens_and_the_exact_excess() {
    let want = AlkaneId::new(2, 1);
    let incoming = AlkaneTransferParcel(vec![
        transfer(9, 9, 77),
        transfer(2, 1, 300),
        transfer(8, 8, 5),
        transfer(2, 1, 250),
    ]);
    let resp = refund_and_check_inputs(&incoming, want, 500).unwrap();
    // unrelated transfers come back unchanged and in order, then the
    // excess of the expected token: 300 + 250 - 500 = 50
    assert_eq!(
        resp.alkanes.0,
        vec![
            transfer(9, 9, 77),
            transfer(8, 8, 5),
            AlkaneTransfer { id: want, value: 50 }
        ]
    );
}

#[test]
fn refund_of_an_exact_match_pays_back_zero_excess() {
    let want = AlkaneId::new(2, 1);
    let incoming = AlkaneTransferParcel(vec![transfer(2, 1, 500)]);
    let resp = refund_and_check_inputs(&incoming, want, 500).unwrap();
    assert_eq!(resp.alkanes.0, vec![AlkaneTransfer { id: want, value: 0 }]);
}

#[test]
fn refund_shortfall_is_rejected() {
    let want = AlkaneId::new(2, 1);
    let incoming = AlkaneTransferParcel(vec![transfer(2, 1, 499), transfer(9, 9, 1000)]);
    let e = refund_and_check_inputs(&incoming, want, 500).unwrap_err();
    assert_eq!(e, CoreError::InsufficientTokens);
    assert_eq!(e.message(), "Insufficient tokens");
}

#[test]
fn refund_checked_sum_rejects_an_overflowing_parcel() {
    let want = AlkaneId::new(2, 1);
    let incoming = AlkaneTransferParcel(vec![
        transfer(2, 1, u128::MAX),
        transfer(2, 1, 1),
    ]);
    let e = refund_and_check_inputs(&incoming, want, 500).unwrap_err();
    assert_eq!(e, CoreError::IncomingOverflow);
}

#[test]
fn isqrt_is_the_exact_floor_of_the_square_root() {
    assert_eq!(isqrt(0), 0);
    assert_eq!(isqrt(1), 1);
    assert_eq!(isqrt(2), 1);
    assert_eq!(isqrt(3), 1);
    assert_eq!(isqrt(4), 2);
    assert_eq!(isqrt(999_999), 999);
    assert_eq!(isqrt(1_000_000_000_000), 1_000_000);
    assert_eq!(isqrt(u128::MAX), 0xffff_ffff_ffff_ffff);
}

#[test]
fn wide_multiplication_is_exact() {
    let r = mul_u128(1 << 64, 1 << 64);
    assert_eq!((r.hi, r.lo), (1, 0));
    let r = mul_u128(u128::MAX, u128::MAX);
    // (2^128 - 1)^2 = 2^256 - 2^129 + 1
    assert_eq!(r.hi, u128::MAX - 1);
    assert_eq!(r.lo, 1);
    let r = mul_u128(123_456_789, 987_654_321);
    assert_eq!((r.hi, r.lo), (0, 123_456_789 * 987_654_321));
}

#[test]
fn wide_addition_wraps_modulo_two_to_the_256() {
    let max = U256 { hi: u128::MAX, lo: u128::MAX };
    let one = U256 { hi: 0, lo: 1 };
    assert_eq!(max.wrapping_add(one), U256 { hi: 0, lo: 0 });
    let a = U256 { hi: 0, lo: u128::MAX };
    assert_eq!(a.wrapping_add(one), U256 { hi: 1, lo: 0 });
}

#[test]
fn wide_comparison_orders_by_value() {
    let small = U256 { hi: 0, lo: u128::MAX };
    let big = U256 { hi: 1, lo: 0 };
    assert!(small.le(big));
    assert!(!big.le(small));
    assert!(big.le(big));
}

#[test]
fn frac32_computes_binary_fractional_digits() {
    // 1/2 = 0.5: the top fractional bit
    assert_eq!(frac32(1, 2), 1 << 31);
    // 1/3 rounds down
    assert_eq!(frac32(1, 3), ((1u128 << 32) / 3));
    // works with a divisor beyond 2^96, where the numerator cannot be
    // scaled in place: (2^127 - 3) / (2^128 - 6) is exactly one half
    let big = u128::MAX - 5;
    assert_eq!(frac32(big / 2, big), 1 << 31);
}

#[test]
fn every_revert_message_is_stable() {
    assert_eq!(CoreError::AlreadyInitialized.message(), "already initialized");
    assert_eq!(CoreError::ZeroAmountOrDuration.message(), "amounts and duration must be nonzero");
    assert_eq!(CoreError::SameTokenPair.message(), "tokens must be distinct");
    assert_eq!(CoreError::InsufficientTokens.message(), "Insufficient tokens");
    assert_eq!(CoreError::IncomingOverflow.message(), "Overflow in incoming transfers");
    assert_eq!(CoreError::InterestOverflow.message(), "Overflow in interest calculation");
    assert_eq!(CoreError::DeadlineOverflow.message(), "Overflow calculating deadline");
    assert_eq!(CoreError::LoanOfferNotAvailable.message(), "Loan offer is not available");
    assert_eq!(CoreError::NoActiveLoan.message(), "No active loan to repay");
    assert_eq!(CoreError::LoanDefaulted.message(), "Loan has defaulted - deadline passed");
    assert_eq!(CoreError::NotDefaultedYet.message(), "not defaulted yet");
    assert_eq!(CoreError::AuthTokenMissing.message(), "Auth token is not in incoming alkanes");
    assert_eq!(CoreError::NothingToClaim.message(), "Loan has not been repaid");
    assert_eq!(CoreError::Locked.message(), "LOCKED");
    assert_eq!(CoreError::Expired.message(), "EXPIRED deadline");
    assert_eq!(CoreError::InsufficientLiquidityMinted.message(), "INSUFFICIENT_LIQUIDITY_MINTED");
    assert_eq!(CoreError::InsufficientAAmount.message(), "INSUFFICIENT_A_AMOUNT");
    assert_eq!(CoreError::InsufficientBAmount.message(), "INSUFFICIENT_B_AMOUNT");
    assert_eq!(CoreError::InsufficientOutputAmount.message(), "INSUFFICIENT_OUTPUT_AMOUNT");
    assert_eq!(CoreError::InsufficientInputAmount.message(), "INSUFFICIENT_INPUT_AMOUNT");
    assert_eq!(CoreError::ExcessiveInputAmount.message(), "EXCESSIVE_INPUT_AMOUNT");
    assert_eq!(CoreError::InsufficientLiquidity.message(), "INSUFFICIENT_LIQUIDITY");
    assert_eq!(CoreError::KNotIncreasing.message(), "K is not increasing");
    assert_eq!(CoreError::LiquidityOverflow.message(), "Overflow in liquidity calculation");
    assert_eq!(CoreError::SwapOverflow.message(), "Overflow in swap calculation");
}
