use alkanes_defi::errors::CoreError;
use alkanes_defi::ids::{AlkaneId, AlkaneTransfer, AlkaneTransferParcel};
use alkanes_defi::pool::{Pool, MINIMUM_LIQUIDITY};

fn pool_id() -> AlkaneId {
    AlkaneId::new(2, 5)
}

fn token_a() -> AlkaneId {
    AlkaneId::new(2, 1)
}

fn token_b() -> AlkaneId {
    AlkaneId::new(2, 2)
}

fn transfer(id: AlkaneId, value: u128) -> AlkaneTransfer {
    AlkaneTransfer { id, value }
}

fn parcel(transfers: Vec<AlkaneTransfer>) -> AlkaneTransferParcel {
    AlkaneTransferParcel(transfers)
}

fn fresh_pool() -> Pool {
    Pool::create(pool_id(), token_a(), token_b(), 3, 100).unwrap()
}

/// A pool funded with one million of each token at time 100.
fn funded_pool() -> Pool {
    let mut p = fresh_pool();
    let incoming = parcel(vec![
        transfer(token_a(), 1_000_000),
        transfer(token_b(), 1_000_000),
    ]);
    let resp = p.initialize(&incoming, 100).unwrap();
    // sqrt(1e12) = 1e6 shares: the caller gets all but the burned floor
    assert_eq!(
        resp.alkanes.0,
        vec![transfer(pool_id(), 1_000_000 - MINIMUM_LIQUIDITY)]
    );
    p
}

#[test]
fn initialize_mints_the_geometric_mean_minus_the_floor() {
    let p = funded_pool();
    assert_eq!(p.reserve_a, 1_000_000);
    assert_eq!(p.reserve_b, 1_000_000);
    assert_eq!(p.total_lp_supply, 1_000_000);
}

#[test]
fn initialize_below_the_minimum_liquidity_floor_fails() {
    // sqrt(1000 * 1000) = 1000 = MINIMUM_LIQUIDITY: nothing would be left
    let mut p = fresh_pool();
    let incoming = parcel(vec![transfer(token_a(), 1000), transfer(token_b(), 1000)]);
    let e = p.initialize(&incoming, 100).unwrap_err();
    assert_eq!(e.message(), "INSUFFICIENT_LIQUIDITY_MINTED");
    assert_eq!(p.total_lp_supply, 0);
    // a zero deposit falls under the same floor
    let incoming = parcel(vec![transfer(token_a(), 1_000_000)]);
    let e = p.initialize(&incoming, 100).unwrap_err();
    assert_eq!(e, CoreError::InsufficientLiquidityMinted);
}

#[test]
fn initialize_twice_is_rejected() {
    let mut p = funded_pool();
    let incoming = parcel(vec![transfer(token_a(), 5000), transfer(token_b(), 5000)]);
    let e = p.initialize(&incoming, 101).unwrap_err();
    assert_eq!(e.message(), "already initialized");
}

#[test]
fn add_liquidity_matches_the_reserve_ratio_and_refunds_excess() {
    let mut p = funded_pool();
    // desired 10,000 A and 50,000 B: only 10,000 B match the 1:1 ratio
    let incoming = parcel(vec![
        transfer(token_a(), 10_000),
        transfer(token_b(), 50_000),
    ]);
    let resp = p.add_liquidity(&incoming, 0, 0, 101, 1000).unwrap();
    assert_eq!(p.reserve_a, 1_010_000);
    assert_eq!(p.reserve_b, 1_010_000);
    // minted = 1e6 * 10,000 / 1e6 = 10,000
    assert_eq!(p.total_lp_supply, 1_010_000);
    assert_eq!(
        resp.alkanes.0,
        vec![
            transfer(token_a(), 0),
            transfer(token_b(), 40_000),
            transfer(pool_id(), 10_000)
        ]
    );
}

#[test]
fn add_liquidity_minimum_checks_reject_the_matched_amounts() {
    let mut p = funded_pool();
    let incoming = parcel(vec![
        transfer(token_a(), 10_000),
        transfer(token_b(), 50_000),
    ]);
    // the matched B amount (10,000) is below the caller's floor
    let e = p.add_liquidity(&incoming, 0, 20_000, 101, 1000).unwrap_err();
    assert_eq!(e.message(), "INSUFFICIENT_B_AMOUNT");

    // mirrored: more A than B, so A is matched down and checked
    let incoming = parcel(vec![
        transfer(token_a(), 50_000),
        transfer(token_b(), 10_000),
    ]);
    let e = p.add_liquidity(&incoming, 20_000, 0, 101, 1000).unwrap_err();
    assert_eq!(e.message(), "INSUFFICIENT_A_AMOUNT");
}

#[test]
fn pool_creation_rejects_a_degenerate_pair() {
    let e = Pool::create(pool_id(), token_a(), token_a(), 3, 100).unwrap_err();
    assert_eq!(e, CoreError::SameTokenPair);
    let e = Pool::create(pool_id(), pool_id(), token_b(), 3, 100).unwrap_err();
    assert_eq!(e, CoreError::SameTokenPair);
}

#[test]
fn add_liquidity_with_nothing_attached_mints_nothing() {
    let mut p = funded_pool();
    let incoming = parcel(vec![]);
    let e = p.add_liquidity(&incoming, 0, 0, 101, 1000).unwrap_err();
    assert_eq!(e, CoreError::InsufficientLiquidityMinted);
}

#[test]
fn liquidity_share_math_overflow_fails_cleanly() {
    let mut p = funded_pool();
    // the quoted deposit of B would overflow the 128-bit product
    let incoming = parcel(vec![transfer(token_a(), u128::MAX / 1_000_000 + 1)]);
    let e = p.add_liquidity(&incoming, 0, 0, 101, 1000).unwrap_err();
    assert_eq!(e.message(), "Overflow in liquidity calculation");
}

#[test]
fn swap_pricing_overflow_fails_cleanly() {
    let mut p = funded_pool();
    let incoming = parcel(vec![transfer(token_a(), u128::MAX / 996)]);
    let e = p.swap_exact_in(&incoming, token_a(), 0, 101, 1000).unwrap_err();
    assert_eq!(e.message(), "Overflow in swap calculation");
}

#[test]
fn add_liquidity_past_the_deadline_is_rejected() {
    let mut p = funded_pool();
    let incoming = parcel(vec![transfer(token_a(), 10), transfer(token_b(), 10)]);
    let e = p.add_liquidity(&incoming, 0, 0, 1001, 1000).unwrap_err();
    assert_eq!(e.message(), "EXPIRED deadline");
}

#[test]
fn remove_liquidity_pays_exact_floor_divided_slices() {
    let mut p = funded_pool();
    // burn a third of the supply: floor(1,000,000 / 3) of each token
    let burn = p.total_lp_supply / 3; // 333,333
    let incoming = parcel(vec![transfer(pool_id(), burn)]);
    let resp = p.remove_liquidity(&incoming, burn, 0, 0, 101, 1000).unwrap();
    assert_eq!(
        resp.alkanes.0,
        vec![
            transfer(pool_id(), 0),
            transfer(token_a(), 333_333),
            transfer(token_b(), 333_333)
        ]
    );
    assert_eq!(p.reserve_a, 1_000_000 - 333_333);
    assert_eq!(p.reserve_b, 1_000_000 - 333_333);
    assert_eq!(p.total_lp_supply, 1_000_000 - burn);
}

#[test]
fn remove_liquidity_burn_is_clamped_to_the_attached_shares() {
    let mut p = funded_pool();
    let incoming = parcel(vec![transfer(pool_id(), 1000)]);
    // asking for more than attached burns only what was attached
    let resp = p.remove_liquidity(&incoming, 5000, 0, 0, 101, 1000).unwrap();
    assert_eq!(p.total_lp_supply, 999_000);
    assert_eq!(
        resp.alkanes.0,
        vec![
            transfer(pool_id(), 0),
            transfer(token_a(), 1000),
            transfer(token_b(), 1000)
        ]
    );
}

#[test]
fn remove_liquidity_minimum_checks_reject_small_payouts() {
    let mut p = funded_pool();
    let incoming = parcel(vec![transfer(pool_id(), 1000)]);
    let e = p
        .remove_liquidity(&incoming, 1000, 2000, 0, 101, 1000)
        .unwrap_err();
    assert_eq!(e.message(), "INSUFFICIENT_A_AMOUNT");
    let incoming = parcel(vec![transfer(pool_id(), 1000)]);
    let e = p
        .remove_liquidity(&incoming, 1000, 0, 2000, 101, 1000)
        .unwrap_err();
    assert_eq!(e.message(), "INSUFFICIENT_B_AMOUNT");
}

#[test]
fn swap_exact_in_prices_by_the_constant_product_formula() {
    let mut p = funded_pool();
    // in = 1000 at 3 per 1000 fee: out = 997,000 * 1e6 / (1e9 + 997,000)
    let incoming = parcel(vec![transfer(token_a(), 1000)]);
    let resp = p.swap_exact_in(&incoming, token_a(), 0, 101, 1000).unwrap();
    assert_eq!(resp.alkanes.0, vec![transfer(token_b(), 996)]);
    assert_eq!(p.reserve_a, 1_001_000);
    assert_eq!(p.reserve_b, 1_000_000 - 996);
    // the constant product did not decrease
    assert!(p.reserve_a * p.reserve_b >= 1_000_000u128 * 1_000_000u128);
}

#[test]
fn swap_exact_in_rejects_zero_input_and_small_output() {
    let mut p = funded_pool();
    let incoming = parcel(vec![]);
    let e = p.swap_exact_in(&incoming, token_a(), 0, 101, 1000).unwrap_err();
    assert_eq!(e.message(), "INSUFFICIENT_INPUT_AMOUNT");
    // one unit in buys nothing: floor(997 * 1e6 / (1e9 + 997)) = 0
    let incoming = parcel(vec![transfer(token_a(), 1)]);
    let e = p.swap_exact_in(&incoming, token_a(), 0, 101, 1000).unwrap_err();
    assert_eq!(e.message(), "INSUFFICIENT_OUTPUT_AMOUNT");
    // a healthy trade below the caller's minimum is rejected too
    let incoming = parcel(vec![transfer(token_a(), 1000)]);
    let e = p
        .swap_exact_in(&incoming, token_a(), 10_000, 101, 1000)
        .unwrap_err();
    assert_eq!(e, CoreError::InsufficientOutputAmount);
}

#[test]
fn swap_on_an_empty_pool_is_rejected() {
    let mut p = fresh_pool();
    let incoming = parcel(vec![transfer(token_a(), 1000)]);
    let e = p.swap_exact_in(&incoming, token_a(), 0, 101, 1000).unwrap_err();
    assert_eq!(e.message(), "INSUFFICIENT_LIQUIDITY");
}

#[test]
fn swap_exact_out_charges_the_rounded_up_input_and_refunds_the_rest() {
    let mut p = funded_pool();
    // 996 B out of a balanced million-pool costs exactly 1000 A
    let incoming = parcel(vec![transfer(token_a(), 1500)]);
    let resp = p
        .swap_exact_out(&incoming, token_a(), 996, 1200, 101, 1000)
        .unwrap();
    assert_eq!(
        resp.alkanes.0,
        vec![transfer(token_a(), 500), transfer(token_b(), 996)]
    );
    assert_eq!(p.reserve_a, 1_001_000);
    assert_eq!(p.reserve_b, 1_000_000 - 996);
}

#[test]
fn swap_exact_out_caps_the_input_and_the_pool_depth() {
    let mut p = funded_pool();
    let incoming = parcel(vec![transfer(token_a(), 1500)]);
    let e = p
        .swap_exact_out(&incoming, token_a(), 996, 999, 101, 1000)
        .unwrap_err();
    assert_eq!(e.message(), "EXCESSIVE_INPUT_AMOUNT");
    // asking for the whole reserve cannot be served
    let incoming = parcel(vec![transfer(token_a(), u128::MAX / 2)]);
    let e = p
        .swap_exact_out(&incoming, token_a(), 1_000_000, u128::MAX, 101, 1000)
        .unwrap_err();
    assert_eq!(e.message(), "INSUFFICIENT_LIQUIDITY");
    // attaching less than the required input fails
    let incoming = parcel(vec![transfer(token_a(), 900)]);
    let e = p
        .swap_exact_out(&incoming, token_a(), 996, 1200, 101, 1000)
        .unwrap_err();
    assert_eq!(e.message(), "Insufficient tokens");
}

#[test]
fn flash_swap_settles_when_the_fee_is_covered() {
    let mut p = funded_pool();
    let (resp, pending) = p.begin_flash_swap(10_000, 0).unwrap();
    assert!(p.locked);
    assert_eq!(
        resp.alkanes.0,
        vec![transfer(token_a(), 10_000), transfer(token_b(), 0)]
    );
    // while the lock is held, every mutating entry point refuses
    let incoming = parcel(vec![transfer(token_a(), 1000)]);
    let e = p.swap_exact_in(&incoming, token_a(), 0, 102, 1000).unwrap_err();
    assert_eq!(e.message(), "LOCKED");
    let incoming = parcel(vec![transfer(token_a(), 10), transfer(token_b(), 10)]);
    let e = p.add_liquidity(&incoming, 0, 0, 102, 1000).unwrap_err();
    assert_eq!(e, CoreError::Locked);
    let e = p.begin_flash_swap(1, 0).unwrap_err();
    assert_eq!(e, CoreError::Locked);
    // paying the amount back with the fee on top settles the swap
    let incoming = parcel(vec![transfer(token_a(), 10_031)]);
    p.complete_flash_swap(pending, &incoming, 102).unwrap();
    assert!(!p.locked);
    assert_eq!(p.reserve_a, 1_000_031);
    assert_eq!(p.reserve_b, 1_000_000);
}

#[test]
fn flash_swap_that_underpays_fails_the_invariant_check() {
    let mut p = funded_pool();
    let (_, pending) = p.begin_flash_swap(10_000, 0).unwrap();
    // returning only the principal leaves the fee unpaid
    let incoming = parcel(vec![transfer(token_a(), 10_000)]);
    let e = p.complete_flash_swap(pending, &incoming, 102).unwrap_err();
    assert_eq!(e.message(), "K is not increasing");
    // returning nothing at all is rejected earlier
    let incoming = parcel(vec![]);
    let e = p.complete_flash_swap(pending, &incoming, 102).unwrap_err();
    assert_eq!(e, CoreError::InsufficientInputAmount);
}

#[test]
fn share_supply_tracks_mints_and_burns_across_a_sequence() {
    let mut p = fresh_pool();
    let mut expected_supply: u128 = 0;

    // initialize mints the whole geometric mean (floor included)
    let incoming = parcel(vec![
        transfer(token_a(), 4_000_000),
        transfer(token_b(), 1_000_000),
    ]);
    p.initialize(&incoming, 100).unwrap();
    expected_supply += 2_000_000; // sqrt(4e6 * 1e6)
    assert_eq!(p.total_lp_supply, expected_supply);

    // two deposits and a withdrawal
    let incoming = parcel(vec![
        transfer(token_a(), 400_000),
        transfer(token_b(), 100_000),
    ]);
    p.add_liquidity(&incoming, 0, 0, 101, 1000).unwrap();
    expected_supply += 200_000; // 2e6 * 4e5 / 4e6
    assert_eq!(p.total_lp_supply, expected_supply);

    let incoming = parcel(vec![
        transfer(token_a(), 44_000),
        transfer(token_b(), 11_000),
    ]);
    p.add_liquidity(&incoming, 0, 0, 102, 1000).unwrap();
    expected_supply += 22_000;
    assert_eq!(p.total_lp_supply, expected_supply);

    let incoming = parcel(vec![transfer(pool_id(), 500_000)]);
    p.remove_liquidity(&incoming, 500_000, 0, 0, 103, 1000).unwrap();
    expected_supply -= 500_000;
    assert_eq!(p.total_lp_supply, expected_supply);

    // reserve tokens moved only through the explicit transfers: what is
    // left is exactly deposits minus payouts
    let burned_share_a = 500_000u128 * 4_444_000 / 2_222_000;
    let burned_share_b = 500_000u128 * 1_111_000 / 2_222_000;
    assert_eq!(p.reserve_a, 4_444_000 - burned_share_a);
    assert_eq!(p.reserve_b, 1_111_000 - burned_share_b);
}

#[test]
fn multi_hop_quote_chains_the_formula_hop_by_hop() {
    let token_c = AlkaneId::new(2, 3);
    let p1 = funded_pool();
    let mut p2 = Pool::create(AlkaneId::new(2, 6), token_b(), token_c, 3, 100).unwrap();
    let incoming = parcel(vec![
        transfer(token_b(), 1_000_000),
        transfer(token_c, 1_000_000),
    ]);
    p2.initialize(&incoming, 100).unwrap();
    let route = vec![p1, p2];
    let amounts = alkanes_defi::pool::quote_route(&route, token_a(), 1000).unwrap();
    // 1000 A buys 996 B, which buys 992 C
    assert_eq!(amounts, vec![1000, 996, 992]);
}

#[test]
fn oracle_accumulates_price_times_elapsed_time() {
    let mut p = fresh_pool();
    let incoming = parcel(vec![
        transfer(token_a(), 2_000_000),
        transfer(token_b(), 1_000_000),
    ]);
    p.initialize(&incoming, 100).unwrap();
    assert_eq!(p.last_update_timestamp, 100);
    // ten time units later: price of A is half a B (2^31 in 32-bit
    // fixed point), price of B is two A (2^33)
    p.update_oracle(110);
    assert_eq!(p.price_a_cumulative.lo, 2_147_483_648 * 10);
    assert_eq!(p.price_b_cumulative.lo, 8_589_934_592 * 10);
    assert_eq!(p.price_a_cumulative.hi, 0);
    assert_eq!(p.last_update_timestamp, 110);
    // a second call at the same timestamp changes nothing
    let before = p.price_a_cumulative;
    p.update_oracle(110);
    assert_eq!(p.price_a_cumulative, before);
}

#[test]
fn reserve_changing_calls_accumulate_before_applying_the_change() {
    let mut p = funded_pool();
    let incoming = parcel(vec![transfer(token_a(), 500_000)]);
    p.swap_exact_in(&incoming, token_a(), 0, 110, 1000).unwrap();
    // the accumulation used the pre-swap reserves (price 1.0 = 2^32)
    assert_eq!(p.price_a_cumulative.lo, 4_294_967_296 * 10);
    assert_eq!(p.price_b_cumulative.lo, 4_294_967_296 * 10);
}
