use fixed::types::U64F64 as Outside;
use mango::fixed_point::{U64F64, SCALE};
use mango::ledger::{settle_borrow_full_unchecked, settle_borrow_unchecked, socialize_loss};
use mango::processor::Processor;
use mango::state::{
    Address, MangoGroup, MangoIndex, MarginAccount, OpenOrders, OracleFeed, OrderReport, Side,
    Signer, GROUP_FLAGS, MARGIN_ACCOUNT_FLAGS, NUM_MARKETS, NUM_TOKENS, OPEN_ORDERS_FLAGS,
};

const BASE: usize = 0;
const QUOTE: usize = 2;
const USER: u64 = 100;

fn addr(n: u64) -> Address {
    Address { w0: n, w1: 0, w2: 0, w3: 0 }
}

fn unset() -> Address {
    Address { w0: 0, w1: 0, w2: 0, w3: 0 }
}

fn fx(n: u64) -> U64F64 {
    U64F64::from_num(n)
}

fn out(x: U64F64) -> Outside {
    Outside::from_bits(x.bits)
}

/// A group whose indexes have grown by amounts that no decimal fraction
/// represents, with deposits and borrows in every asset.
fn grown_group() -> MangoGroup {
    let mut group = MangoGroup {
        account_flags: GROUP_FLAGS,
        tokens: [addr(11), addr(12), addr(13)],
        vaults: [addr(21), addr(22), addr(23)],
        indexes: [MangoIndex { last_update: 0, borrow: fx(1), deposit: fx(1) }; NUM_TOKENS],
        spot_markets: [addr(31), addr(32)],
        oracles: [addr(41), addr(42)],
        signer_nonce: 0,
        signer_key: addr(50),
        dex_program_id: addr(51),
        total_deposits: [fx(0); NUM_TOKENS],
        total_borrows: [fx(0); NUM_TOKENS],
        maint_coll_ratio: U64F64 { bits: 11 * SCALE / 10 },
        init_coll_ratio: U64F64 { bits: 12 * SCALE / 10 },
        srm_vault: addr(52),
        admin: addr(53),
        borrow_limits: [u64::MAX; NUM_TOKENS],
        mint_decimals: [0; NUM_TOKENS],
        oracle_decimals: [0; NUM_MARKETS],
    };
    for i in 0..NUM_TOKENS {
        group.indexes[i].deposit = U64F64 { bits: SCALE + 1234567890123456789 * (i as u128 + 1) };
        group.indexes[i].borrow = U64F64 { bits: SCALE + 2345678901234567891 * (i as u128 + 1) };
        group.total_deposits[i] = U64F64 { bits: 1_000_000 * SCALE + 987654321 };
        group.total_borrows[i] = U64F64 { bits: 300_000 * SCALE + 123456789 };
    }
    group
}

fn account() -> MarginAccount {
    MarginAccount {
        account_flags: MARGIN_ACCOUNT_FLAGS,
        mango_group: addr(1),
        owner: addr(USER),
        deposits: [U64F64 { bits: 5000 * SCALE + 55555 }; NUM_TOKENS],
        borrows: [U64F64 { bits: 1200 * SCALE + 77777 }; NUM_TOKENS],
        open_orders: [unset(); NUM_MARKETS],
        srm_balance: 0,
    }
}

fn blank() -> OpenOrders {
    OpenOrders {
        key: unset(),
        account_flags: 0,
        owner: unset(),
        native_coin_free: 0,
        native_coin_total: 0,
        native_pc_free: 0,
        native_pc_total: 0,
    }
}

#[test]
fn deposit_divides_by_the_deposit_index() {
    let mut group = grown_group();
    let mut user = account();
    let (g0, a0) = (group, user);
    Processor::deposit(&mut group, &mut user, 0, &addr(22), 777).unwrap();
    let shares = Outside::from_num(777u64) / out(g0.indexes[1].deposit);
    assert_eq!(out(user.deposits[1]), out(a0.deposits[1]) + shares);
    assert_eq!(out(group.total_deposits[1]), out(g0.total_deposits[1]) + shares);
    assert_eq!(user.borrows, a0.borrows);
}

#[test]
fn borrow_divides_by_each_index() {
    let mut group = grown_group();
    let mut user = account();
    let (g0, a0) = (group, user);
    let feeds = [OracleFeed { key: addr(41), median: 3 }, OracleFeed { key: addr(42), median: 5 }];
    let owner = Signer { key: addr(USER), is_signer: true };
    Processor::borrow(&mut group, &mut user, 0, &owner, &[blank(); NUM_MARKETS], &feeds, BASE, 333)
        .unwrap();
    let borrow = Outside::from_num(333u64) / out(g0.indexes[BASE].borrow);
    let deposit = Outside::from_num(333u64) / out(g0.indexes[BASE].deposit);
    assert_eq!(out(user.borrows[BASE]), out(a0.borrows[BASE]) + borrow);
    assert_eq!(out(user.deposits[BASE]), out(a0.deposits[BASE]) + deposit);
    assert_eq!(out(group.total_borrows[BASE]), out(g0.total_borrows[BASE]) + borrow);
    assert_eq!(out(group.total_deposits[BASE]), out(g0.total_deposits[BASE]) + deposit);
}

#[test]
fn withdraw_divides_by_the_deposit_index() {
    let mut group = grown_group();
    let mut user = account();
    let (g0, a0) = (group, user);
    let feeds = [OracleFeed { key: addr(41), median: 3 }, OracleFeed { key: addr(42), median: 5 }];
    let owner = Signer { key: addr(USER), is_signer: true };
    Processor::withdraw(&mut group, &mut user, 0, &owner, &[blank(); NUM_MARKETS], &feeds, &addr(23), 99)
        .unwrap();
    let shares = Outside::from_num(99u64) / out(g0.indexes[QUOTE].deposit);
    assert_eq!(out(user.deposits[QUOTE]), out(a0.deposits[QUOTE]) - shares);
    assert_eq!(out(group.total_deposits[QUOTE]), out(g0.total_deposits[QUOTE]) - shares);
}

#[test]
fn settling_divides_the_least_amount_by_each_index() {
    for asked in [0u64, 1, 500, 1400, 1_000_000] {
        let mut group = grown_group();
        let mut user = account();
        let (g0, a0) = (group, user);
        settle_borrow_unchecked(&mut group, &mut user, 1, asked).unwrap();
        let index = g0.indexes[1];
        let native_borrow: u64 = (out(a0.borrows[1]) * out(index.borrow)).to_num();
        let native_deposit: u64 = (out(a0.deposits[1]) * out(index.deposit)).to_num();
        let quantity = asked.min(native_borrow).min(native_deposit);
        let borr_settle = Outside::from_num(quantity) / out(index.borrow);
        let dep_settle = Outside::from_num(quantity) / out(index.deposit);
        assert_eq!(out(user.deposits[1]), out(a0.deposits[1]) - dep_settle, "asked {asked}");
        assert_eq!(out(user.borrows[1]), out(a0.borrows[1]) - borr_settle, "asked {asked}");
        assert_eq!(out(group.total_deposits[1]), out(g0.total_deposits[1]) - dep_settle);
        assert_eq!(out(group.total_borrows[1]), out(g0.total_borrows[1]) - borr_settle);
        assert_eq!(group.indexes, g0.indexes);
    }
}

#[test]
fn netting_leaves_less_than_two_units_on_one_side() {
    for (deposit, borrow) in [(5000u128, 1200u128), (1200, 5000), (777, 777), (1, 900), (0, 5)] {
        for i in 0..NUM_TOKENS {
            let mut group = grown_group();
            let mut user = account();
            user.deposits[i] = U64F64 { bits: deposit * SCALE + 55555 };
            user.borrows[i] = U64F64 { bits: borrow * SCALE + 77777 };
            settle_borrow_full_unchecked(&mut group, &mut user, i).unwrap();
            let owed = user.get_native_borrow(&group.indexes[i], i).unwrap();
            let owned = user.get_native_deposit(&group.indexes[i], i).unwrap();
            assert!(owed <= 1 || owned <= 1, "{deposit} against {borrow} of asset {i}");
        }
    }
}

#[test]
fn a_write_off_shrinks_the_deposit_index_by_the_loss_over_the_pool() {
    for loss in [U64F64 { bits: 1 }, U64F64 { bits: SCALE / 3 }, U64F64 { bits: 999 * SCALE + 5 }] {
        let mut group = grown_group();
        let mut user = account();
        let (g0, a0) = (group, user);
        socialize_loss(&mut group, &mut user, QUOTE, loss).unwrap();
        let index = g0.indexes[QUOTE];
        let quantity = out(loss) / out(index.borrow);
        let total_deposits: Outside = out(g0.total_deposits[QUOTE]) * out(index.deposit);
        let percentage_loss = out(loss).checked_div(total_deposits).unwrap();
        let deposit = out(index.deposit)
            .checked_sub(percentage_loss.checked_mul(out(index.deposit)).unwrap())
            .unwrap();
        assert_eq!(out(group.indexes[QUOTE].deposit), deposit);
        assert_eq!(group.indexes[QUOTE].borrow, index.borrow);
        assert_eq!(out(user.borrows[QUOTE]), out(a0.borrows[QUOTE]) - quantity);
        assert_eq!(out(group.total_borrows[QUOTE]), out(g0.total_borrows[QUOTE]) - quantity);
        assert_eq!(group.total_deposits, g0.total_deposits);
        assert_eq!(user.deposits, a0.deposits);
    }
}

#[test]
fn an_order_beyond_the_deposit_borrows_the_rest_at_the_borrow_index() {
    let mut group = grown_group();
    let mut user = account();
    let (g0, a0) = (group, user);
    let feeds = [OracleFeed { key: addr(41), median: 3 }, OracleFeed { key: addr(42), median: 5 }];
    let owner = Signer { key: addr(USER), is_signer: true };
    let index = g0.indexes[QUOTE];
    let native_deposit: u64 = (out(a0.deposits[QUOTE]) * out(index.deposit)).to_num();
    let spent = native_deposit + 250;
    let report = OrderReport {
        spot_market: addr(31),
        dex_program: addr(51),
        side: Side::Bid,
        vault: addr(23),
        pre_amount: 1_000_000,
        post_amount: 1_000_000 - spent,
    };
    let before = [OpenOrders { key: addr(61), ..blank() }, blank()];
    let after = [
        OpenOrders {
            key: addr(61),
            account_flags: OPEN_ORDERS_FLAGS,
            owner: addr(50),
            native_pc_total: spent,
            ..blank()
        },
        blank(),
    ];
    Processor::place_order(&mut group, &mut user, 0, &owner, &feeds, &before, &after, &report)
        .unwrap();
    let borrowed = Outside::from_num(250u64) / out(index.borrow);
    assert_eq!(user.deposits[QUOTE], fx(0));
    assert_eq!(out(user.borrows[QUOTE]), out(a0.borrows[QUOTE]) + borrowed);
    assert_eq!(out(group.total_deposits[QUOTE]), out(g0.total_deposits[QUOTE]) - out(a0.deposits[QUOTE]));
    assert_eq!(out(group.total_borrows[QUOTE]), out(g0.total_borrows[QUOTE]) + borrowed);
}
