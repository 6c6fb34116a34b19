use fixed::types::U64F64 as Outside;
use mango::error::MangoError;
use mango::fixed_point::{U64F64, SCALE};
use mango::oracle::{checked_pow10, get_prices};
use mango::state::{
    Address, MangoGroup, MangoIndex, MarginAccount, OpenOrders, OracleFeed, GROUP_FLAGS,
    MARGIN_ACCOUNT_FLAGS, NUM_MARKETS, NUM_TOKENS, OPEN_ORDERS_FLAGS,
};

fn addr(n: u64) -> Address {
    Address { w0: n, w1: 0, w2: 0, w3: 0 }
}

fn unset() -> Address {
    Address { w0: 0, w1: 0, w2: 0, w3: 0 }
}

fn fx(n: u64) -> U64F64 {
    U64F64::from_num(n)
}

fn half(n: u64) -> U64F64 {
    U64F64 { bits: (n as u128) * SCALE / 2 }
}

fn new_group(now: u64) -> MangoGroup {
    MangoGroup {
        account_flags: GROUP_FLAGS,
        tokens: [addr(11), addr(12), addr(13)],
        vaults: [addr(21), addr(22), addr(23)],
        indexes: [MangoIndex { last_update: now, borrow: fx(1), deposit: fx(1) }; NUM_TOKENS],
        spot_markets: [addr(31), addr(32)],
        oracles: [addr(41), addr(42)],
        signer_nonce: 0,
        signer_key: addr(50),
        dex_program_id: addr(51),
        total_deposits: [fx(0); NUM_TOKENS],
        total_borrows: [fx(0); NUM_TOKENS],
        maint_coll_ratio: U64F64 { bits: 11 * SCALE / 10 },
        init_coll_ratio: U64F64 { bits: 12 * SCALE / 10 },
        srm_vault: addr(52),
        admin: addr(53),
        borrow_limits: [u64::MAX; NUM_TOKENS],
        mint_decimals: [0; NUM_TOKENS],
        oracle_decimals: [0; NUM_MARKETS],
    }
}

fn new_account(owner: Address) -> MarginAccount {
    MarginAccount {
        account_flags: MARGIN_ACCOUNT_FLAGS,
        mango_group: addr(1),
        owner,
        deposits: [fx(0); NUM_TOKENS],
        borrows: [fx(0); NUM_TOKENS],
        open_orders: [unset(); NUM_MARKETS],
        srm_balance: 0,
    }
}

fn no_orders() -> [OpenOrders; NUM_MARKETS] {
    [OpenOrders {
        key: unset(),
        account_flags: 0,
        owner: unset(),
        native_coin_free: 0,
        native_coin_total: 0,
        native_pc_free: 0,
        native_pc_total: 0,
    }; NUM_MARKETS]
}

fn resting(key: u64, coin_total: u64, pc_total: u64) -> OpenOrders {
    OpenOrders {
        key: addr(key),
        account_flags: OPEN_ORDERS_FLAGS,
        owner: addr(50),
        native_coin_free: 0,
        native_coin_total: coin_total,
        native_pc_free: 0,
        native_pc_total: pc_total,
    }
}

fn feeds(a: u64, b: u64) -> [OracleFeed; NUM_MARKETS] {
    [OracleFeed { key: addr(41), median: a }, OracleFeed { key: addr(42), median: b }]
}

#[test]
fn powers_of_ten() {
    assert_eq!(checked_pow10(0), Some(1));
    assert_eq!(checked_pow10(1), Some(10));
    assert_eq!(checked_pow10(6), Some(1_000_000));
    assert_eq!(checked_pow10(19), Some(10_000_000_000_000_000_000));
    assert_eq!(checked_pow10(20), None);
    assert_eq!(checked_pow10(255), None);
}

#[test]
fn price_is_the_oracle_value_scaled_by_the_decimals() {
    let mut group = new_group(0);
    group.mint_decimals = [6, 9, 6];
    group.oracle_decimals = [2, 2];
    let prices = get_prices(&group, &feeds(5_000_000, 123_456)).unwrap();
    // quote_adj = 10^(6 - 2), base_adj = 10^6 and 10^9
    let expect = |base_decimals: u32, median: u64| {
        Outside::from_num(10u64.pow(4))
            .checked_div(Outside::from_num(10u64.pow(base_decimals)))
            .unwrap()
            .checked_mul(Outside::from_num(median))
            .unwrap()
            .to_bits()
    };
    assert_eq!(prices[0].bits, expect(6, 5_000_000));
    assert_eq!(prices[1].bits, expect(9, 123_456));
    assert_eq!(prices[2], fx(1));
    // 0.01 is rounded down before it is multiplied
    assert_eq!(prices[0].bits, (SCALE / 100) * 5_000_000);
}

#[test]
fn price_of_the_quote_currency_is_exactly_one() {
    let group = new_group(0);
    let prices = get_prices(&group, &feeds(7, 0)).unwrap();
    assert_eq!(prices, [fx(7), fx(0), fx(1)]);
}

#[test]
fn price_with_whole_factors_is_exact() {
    let mut group = new_group(0);
    group.mint_decimals = [0, 1, 2];
    group.oracle_decimals = [1, 0];
    let prices = get_prices(&group, &feeds(25, 3)).unwrap();
    // 10^(2-1) / 10^0 * 25 and 10^(2-0) / 10^1 * 3
    assert_eq!(prices, [fx(250), fx(30), fx(1)]);
}

#[test]
fn prices_reject_a_feed_that_is_not_bound() {
    let group = new_group(0);
    let mut wrong = feeds(1, 1);
    wrong[1].key = addr(99);
    assert_eq!(get_prices(&group, &wrong), Err(MangoError::ReferenceMismatch));
    let mut wrong = feeds(1, 1);
    wrong[0].key = addr(42);
    assert_eq!(get_prices(&group, &wrong), Err(MangoError::ReferenceMismatch));
}

#[test]
fn prices_reject_decimals_that_cannot_be_scaled() {
    let mut group = new_group(0);
    group.mint_decimals = [0, 0, 2];
    group.oracle_decimals = [3, 0];
    assert_eq!(get_prices(&group, &feeds(1, 1)), Err(MangoError::Arithmetic));
    let mut group = new_group(0);
    group.mint_decimals = [20, 0, 0];
    assert_eq!(get_prices(&group, &feeds(1, 1)), Err(MangoError::Arithmetic));
    let mut group = new_group(0);
    group.mint_decimals = [0, 0, 20];
    assert_eq!(get_prices(&group, &feeds(1, 1)), Err(MangoError::Arithmetic));
}

#[test]
fn the_first_failing_feed_decides_the_error() {
    let mut group = new_group(0);
    group.mint_decimals = [20, 0, 0];
    let mut wrong = feeds(1, 1);
    wrong[1].key = addr(99);
    assert_eq!(get_prices(&group, &wrong), Err(MangoError::Arithmetic));
    wrong[0].key = addr(99);
    assert_eq!(get_prices(&group, &wrong), Err(MangoError::ReferenceMismatch));
}

#[test]
fn native_amounts_are_shares_times_index_rounded_down() {
    let mut account = new_account(addr(1));
    account.deposits[0] = fx(100);
    account.borrows[0] = fx(7);
    let index = MangoIndex { last_update: 0, borrow: half(3), deposit: half(3) };
    assert_eq!(account.get_native_deposit(&index, 0), Ok(150));
    assert_eq!(account.get_native_borrow(&index, 0), Ok(10));
    account.deposits[1] = U64F64::max_value();
    assert_eq!(account.get_native_deposit(&index, 1), Err(MangoError::Arithmetic));
    account.borrows[2] = U64F64::max_value();
    assert_eq!(account.get_native_borrow(&index, 2), Err(MangoError::Arithmetic));
}

#[test]
fn assets_value_sums_deposits_and_resting_balances() {
    let mut group = new_group(0);
    group.indexes[0].deposit = half(3);
    let mut account = new_account(addr(1));
    account.deposits[0] = fx(10);
    account.deposits[1] = fx(4);
    account.deposits[2] = fx(1000);
    let prices = [fx(20), half(5), fx(1)];
    // 10 * 1.5 * 20 + 4 * 2.5 + 1000
    assert_eq!(account.get_assets_val(&group, &prices, &no_orders()), Ok(fx(1310)));
    let mut orders = no_orders();
    orders[0] = resting(61, 2, 30);
    orders[1] = resting(62, 4, 5);
    // + 2 * 20 + 30 + 4 * 2.5 + 5
    assert_eq!(account.get_assets_val(&group, &prices, &orders), Ok(fx(1395)));
}

#[test]
fn open_orders_that_are_not_set_are_worth_nothing() {
    let group = new_group(0);
    let account = new_account(addr(1));
    let prices = [fx(20), fx(3), fx(1)];
    let mut orders = no_orders();
    orders[0].native_coin_total = 1_000;
    orders[0].native_pc_total = 1_000;
    assert_eq!(account.get_assets_val(&group, &prices, &orders), Ok(fx(0)));
    orders[0].key = addr(61);
    assert_eq!(account.get_assets_val(&group, &prices, &orders), Ok(fx(21_000)));
}

#[test]
fn liabilities_value_sums_borrows() {
    let mut group = new_group(0);
    group.indexes[1].borrow = half(3);
    let mut account = new_account(addr(1));
    account.borrows[0] = fx(10);
    account.borrows[1] = fx(4);
    account.borrows[2] = fx(7);
    let prices = [fx(20), half(5), fx(1)];
    // 10 * 20 + 4 * 1.5 * 2.5 + 7
    assert_eq!(account.get_liabs_val(&group, &prices), Ok(fx(222)));
}

#[test]
fn values_report_overflow() {
    let group = new_group(0);
    let mut account = new_account(addr(1));
    let prices = [fx(2), fx(1), fx(1)];
    account.deposits[0] = U64F64 { bits: u128::MAX / 2 + 1 };
    assert_eq!(
        account.get_assets_val(&group, &prices, &no_orders()),
        Err(MangoError::Arithmetic)
    );
    // each term fits but the sum does not
    account.deposits[0] = U64F64 { bits: u128::MAX / 4 + 1 };
    account.deposits[1] = U64F64 { bits: u128::MAX / 2 + 1 };
    assert_eq!(
        account.get_assets_val(&group, &prices, &no_orders()),
        Err(MangoError::Arithmetic)
    );
    account.borrows[2] = U64F64::max_value();
    account.borrows[1] = U64F64 { bits: 1 };
    assert_eq!(account.get_liabs_val(&group, &prices), Err(MangoError::Arithmetic));
    assert_eq!(
        account.get_collateral_ratio(&group, &prices, &no_orders()),
        Err(MangoError::Arithmetic)
    );
}

#[test]
fn collateral_ratio_is_assets_over_liabilities() {
    let group = new_group(0);
    let mut account = new_account(addr(1));
    account.deposits[2] = fx(1000);
    account.borrows[0] = fx(500);
    let prices = [fx(1), fx(1), fx(1)];
    assert_eq!(account.get_collateral_ratio(&group, &prices, &no_orders()), Ok(fx(2)));
    let prices = [fx(3), fx(1), fx(1)];
    assert_eq!(
        account.get_collateral_ratio(&group, &prices, &no_orders()),
        Ok(U64F64 { bits: 2 * SCALE / 3 })
    );
}

#[test]
fn collateral_ratio_without_liabilities_is_the_largest_number() {
    let group = new_group(0);
    let mut account = new_account(addr(1));
    let prices = [fx(1), fx(1), fx(1)];
    assert_eq!(
        account.get_collateral_ratio(&group, &prices, &no_orders()),
        Ok(U64F64::max_value())
    );
    account.deposits[2] = fx(1000);
    assert_eq!(
        account.get_collateral_ratio(&group, &prices, &no_orders()),
        Ok(U64F64::max_value())
    );
}

#[test]
fn collateral_ratio_that_cannot_be_represented_is_an_error() {
    let group = new_group(0);
    let mut account = new_account(addr(1));
    account.deposits[2] = fx(u64::MAX);
    account.borrows[0] = U64F64 { bits: 1 };
    let prices = [fx(1), fx(1), fx(1)];
    assert_eq!(
        account.get_collateral_ratio(&group, &prices, &no_orders()),
        Err(MangoError::Arithmetic)
    );
}

#[test]
fn equity_is_assets_less_liabilities_and_never_negative() {
    let group = new_group(0);
    let mut account = new_account(addr(1));
    account.deposits[2] = fx(1000);
    account.borrows[0] = fx(500);
    let prices = [fx(1), fx(1), fx(1)];
    assert_eq!(account.get_equity(&group, &prices, &no_orders()), Ok(fx(500)));
    let prices = [fx(3), fx(1), fx(1)];
    assert_eq!(account.get_equity(&group, &prices, &no_orders()), Ok(fx(0)));
}

#[test]
fn collateral_deficit_is_what_is_missing_to_the_initial_ratio() {
    let mut group = new_group(0);
    group.init_coll_ratio = half(3);
    let mut account = new_account(addr(1));
    let prices = [fx(1), fx(1), fx(1)];
    assert_eq!(account.get_collateral_deficit(&group, &prices, &no_orders()), Ok(0));
    account.deposits[2] = fx(1000);
    account.borrows[0] = fx(500);
    assert_eq!(account.get_collateral_deficit(&group, &prices, &no_orders()), Ok(0));
    account.borrows[0] = fx(800);
    // 800 * 1.5 - 1000
    assert_eq!(account.get_collateral_deficit(&group, &prices, &no_orders()), Ok(200));
    account.borrows[0] = U64F64 { bits: 667 * SCALE + SCALE / 2 };
    // 1001.25 - 1000, rounded down
    assert_eq!(account.get_collateral_deficit(&group, &prices, &no_orders()), Ok(1));
}

#[test]
fn total_assets_count_deposits_and_resting_balances_in_native_units() {
    let mut group = new_group(0);
    group.indexes[0].deposit = half(3);
    let mut account = new_account(addr(1));
    account.deposits[0] = fx(10);
    account.deposits[2] = fx(1000);
    assert_eq!(account.get_total_assets(&group, &no_orders()), Ok([15, 0, 1000]));
    let mut orders = no_orders();
    orders[0] = resting(61, 2, 30);
    orders[1] = resting(62, 4, 5);
    assert_eq!(account.get_total_assets(&group, &orders), Ok([17, 4, 1035]));
    orders[1].key = unset();
    assert_eq!(account.get_total_assets(&group, &orders), Ok([17, 0, 1030]));
    orders[0].native_pc_total = u64::MAX;
    assert_eq!(account.get_total_assets(&group, &orders), Err(MangoError::Arithmetic));
    orders[0].native_pc_total = 0;
    orders[0].native_coin_total = u64::MAX;
    assert_eq!(account.get_total_assets(&group, &orders), Err(MangoError::Arithmetic));
}

#[test]
fn total_liabilities_are_the_native_borrows() {
    let mut group = new_group(0);
    group.indexes[1].borrow = half(3);
    let mut account = new_account(addr(1));
    account.borrows[0] = fx(10);
    account.borrows[1] = fx(5);
    assert_eq!(account.get_total_liabs(&group), Ok([10, 7, 0]));
    account.borrows[2] = U64F64::max_value();
    group.indexes[2].borrow = fx(2);
    assert_eq!(account.get_total_liabs(&group), Err(MangoError::Arithmetic));
}

#[test]
fn account_shares_are_added_and_subtracted_with_checks() {
    let mut account = new_account(addr(1));
    assert_eq!(account.checked_add_deposit(1, fx(5)), Ok(()));
    assert_eq!(account.checked_add_borrow(1, fx(3)), Ok(()));
    assert_eq!(account.checked_sub_deposit(1, fx(2)), Ok(()));
    assert_eq!(account.checked_sub_borrow(1, fx(1)), Ok(()));
    assert_eq!(account.deposits, [fx(0), fx(3), fx(0)]);
    assert_eq!(account.borrows, [fx(0), fx(2), fx(0)]);
    assert_eq!(account.checked_sub_deposit(1, fx(4)), Err(MangoError::Arithmetic));
    assert_eq!(account.checked_sub_borrow(1, fx(3)), Err(MangoError::Arithmetic));
    assert_eq!(account.checked_add_deposit(1, U64F64::max_value()), Err(MangoError::Arithmetic));
    assert_eq!(account.checked_add_borrow(1, U64F64::max_value()), Err(MangoError::Arithmetic));
    assert_eq!(account.deposits, [fx(0), fx(3), fx(0)]);
    assert_eq!(account.borrows, [fx(0), fx(2), fx(0)]);
}

#[test]
fn values_match_the_fixed_crate_on_awkward_numbers() {
    let mut group = new_group(0);
    group.indexes[0].deposit = U64F64 { bits: SCALE + 12345678901234567 };
    group.indexes[0].borrow = U64F64 { bits: SCALE + 98765432109876543 };
    let mut account = new_account(addr(1));
    account.deposits[0] = U64F64 { bits: 77 * SCALE + 31337 };
    account.borrows[0] = U64F64 { bits: 13 * SCALE + 271828 };
    let price = U64F64 { bits: 3 * SCALE + 1414213562373095 };
    let prices = [price, fx(1), fx(1)];
    let f = Outside::from_bits;
    let assets = f(group.indexes[0].deposit.bits)
        .checked_mul(f(account.deposits[0].bits))
        .unwrap()
        .checked_mul(f(price.bits))
        .unwrap();
    let liabs = f(group.indexes[0].borrow.bits) * f(account.borrows[0].bits) * f(price.bits);
    assert_eq!(
        account.get_assets_val(&group, &prices, &no_orders()),
        Ok(U64F64 { bits: assets.to_bits() })
    );
    assert_eq!(
        account.get_liabs_val(&group, &prices),
        Ok(U64F64 { bits: liabs.to_bits() })
    );
    assert_eq!(
        account.get_collateral_ratio(&group, &prices, &no_orders()),
        Ok(U64F64 { bits: (assets / liabs).to_bits() })
    );
}
