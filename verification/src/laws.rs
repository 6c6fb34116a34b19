use vstd::prelude::*;
use crate::account::{bits_sum, lemma_bits_sum_grows};
use crate::error::{or_arithmetic, MangoError};
use crate::fixed_point::{SCALE, U64F64};
use crate::group::{first_position, lemma_refresh_frame};
use crate::ledger::{add_deposit, min3, settled, socialized};
use crate::liquidation::{liquidated, write_off_step, Ledger};
use crate::oracle::{base_price, lemma_pow10_grows, pow10};
use crate::processor::{
    borrow_settled, borrowed, deposited, lemma_prices_frame, lemma_solvency,
    meets_initial_ratio, opened, withdrawn,
};
use crate::state::{
    AccountState, Address, FundsReport, GroupState, MangoIndex, OpenOrders, OracleFeed,
    OrderReport, Side, Signer, TradeReport, NUM_MARKETS, NUM_TOKENS,
};
use crate::steps::lemma_first_error_none;
use crate::trading::{
    admitted, bindings_kept, bought_token, entry_ratio, funds_settled, no_new_debt, order_placed,
    placed_and_settled, registration_check, spent_token, trade_booked,
};

verus! {

/// A quotient rounded down, times the divisor, is at most the dividend and
/// misses it by less than the divisor.
pub proof fn lemma_floor_div(a: int, b: int)
    by (nonlinear_arith)
    requires
        0 <= a,
        0 < b,
    ensures
        0 <= a / b,
        (a / b) * b <= a,
        a < (a / b) * b + b,
{
}

proof fn lemma_loss_upper(x: int, d: int, di: int, nd: int, pl: int, cut: int, s: int)
    by (nonlinear_arith)
    requires
        0 <= x,
        0 <= d,
        0 <= di,
        0 <= nd,
        0 < s,
        0 <= pl,
        0 <= cut,
        d * di < nd * s + s,
        pl * nd <= x * s,
        cut * s <= pl * di,
    ensures
        d * cut <= x * s + pl,
{
    assert(d * (cut * s) <= d * (pl * di));
    assert(d * (pl * di) == pl * (d * di));
    assert(pl * (d * di) <= pl * (nd * s + s));
    assert(pl * (nd * s + s) == (pl * nd) * s + pl * s);
    assert((pl * nd) * s <= (x * s) * s);
    assert((d * cut) * s <= (x * s + pl) * s);
}

proof fn lemma_loss_lower(x: int, d: int, di: int, nd: int, pl: int, cut: int, s: int)
    by (nonlinear_arith)
    requires
        0 <= x,
        0 <= d,
        0 <= di,
        0 <= nd,
        0 < s,
        0 <= pl,
        0 <= cut,
        nd * s <= d * di,
        x * s < pl * nd + nd,
        pl * di < cut * s + s,
    ensures
        x * s < d * cut + nd + d,
{
    assert(d * (pl * di) <= d * (cut * s + s));
    assert(d * (pl * di) == pl * (d * di));
    assert(pl * (nd * s) <= pl * (d * di));
    assert(pl * (nd * s) == (pl * nd) * s);
    assert((x * s - nd) * s < (pl * nd) * s);
    assert((x * s - nd) * s < (d * cut + d) * s);
}

/// What a write-off takes, it takes from the borrower's debt and from the
/// pool's deposits alike, up to rounding.
///
/// Writing off `loss` native units of the account's borrow of asset `i`
/// lowers the account's native borrow, taken exactly as shares times index,
/// by at most `loss` and by more than `loss` less one step of the borrow
/// index. It lowers the asset's native deposits, taken exactly as the
/// group's total shares times index, by `loss` as well, up to rounding:
/// the fall is above `loss` by at most 2^-64 of the fraction that the loss
/// is of the pool, and below it by less than 2^-64 of the pool and its
/// shares together. The shares of the depositors, the asset's borrow index
/// and the indexes of the other assets stay as they are. All amounts in
/// the clauses are in units of 2^-128.
pub proof fn lemma_socialized_loss_is_shared(g: GroupState, a: AccountState, i: int, loss: U64F64)
    requires
        g.wf(),
        a.wf(),
        0 <= i < NUM_TOKENS,
        socialized(g, a, i, loss) is Some,
    ensures
        ({
            let (g1, a1) = socialized(g, a, i, loss)->Some_0;
            let written_off = a.borrows[i].bits - a1.borrows[i].bits;
            let index = g.indexes[i];
            let pool = g.native_deposits(i)->0;
            let fraction = loss.quot(pool)->0;
            let shares = g.total_deposits[i].bits as int;
            let cut = index.deposit.bits - g1.indexes[i].deposit.bits;
            &&& 0 <= written_off
            &&& g.total_borrows[i].bits - g1.total_borrows[i].bits == written_off
            &&& written_off * index.borrow.bits <= loss.bits * SCALE
            &&& loss.bits * SCALE < written_off * index.borrow.bits + index.borrow.bits
            &&& g1.total_deposits[i] == g.total_deposits[i]
            &&& g1.indexes[i].borrow == index.borrow
            &&& forall|k: int| 0 <= k < NUM_TOKENS && k != i ==> g1.indexes[k] == g.indexes[k]
            &&& 0 <= cut
            &&& loss.bits * SCALE < shares * cut + pool.bits + shares
            &&& shares * cut <= loss.bits * SCALE + fraction.bits
        }),
{
    let index = g.indexes[i];
    let s = SCALE as int;
    let x = loss.bits as int;
    let bi = index.borrow.bits as int;
    let di = index.deposit.bits as int;
    let d = g.total_deposits[i].bits as int;
    let q = loss.quot(index.borrow)->0;
    lemma_floor_div(x * s, bi);
    let (g0, a0) = crate::ledger::sub_borrow(g, a, i, q)->Some_0;
    assert(g0.native_deposits(i) == g.native_deposits(i));
    let nd = g.native_deposits(i)->0.bits as int;
    let pl = loss.quot(g.native_deposits(i)->0)->0.bits as int;
    lemma_floor_div(x * s, nd);
    let cut = (U64F64 { bits: pl as u128 }).prod(index.deposit)->0.bits as int;
    assert(cut * s <= pl * di && pl * di < cut * s + s);
    assert(nd * s <= d * di && d * di < nd * s + s);
    lemma_loss_upper(x, d, di, nd, pl, cut, s);
    lemma_loss_lower(x, d, di, nd, pl, cut, s);
}

/// A loss that the borrower owes and that the pool holds can always be
/// written off.
///
/// Where the asset's native deposits are not zero and not less than `loss`,
/// and `loss` in borrow shares is no more than the account's borrow and
/// the group's total of borrows, the write-off succeeds.
pub proof fn lemma_a_bearable_loss_is_written_off(
    g: GroupState,
    a: AccountState,
    i: int,
    loss: U64F64,
)
    requires
        g.wf(),
        a.wf(),
        0 <= i < NUM_TOKENS,
        g.native_deposits(i) is Some,
        0 < g.native_deposits(i)->0.bits,
        loss.bits <= g.native_deposits(i)->0.bits,
        loss.quot(g.indexes[i].borrow) is Some,
        loss.quot(g.indexes[i].borrow)->0.bits <= a.borrows[i].bits,
        loss.quot(g.indexes[i].borrow)->0.bits <= g.total_borrows[i].bits,
    ensures
        socialized(g, a, i, loss) is Some,
{
    let index = g.indexes[i];
    let s = SCALE as int;
    let x = loss.bits as int;
    let di = index.deposit.bits as int;
    let nd = g.native_deposits(i)->0.bits as int;
    let q = loss.quot(index.borrow)->0;
    let (g0, a0) = crate::ledger::sub_borrow(g, a, i, q)->Some_0;
    assert(g0.native_deposits(i) == g.native_deposits(i));
    assert(0 <= x * s / nd <= s) by (nonlinear_arith)
        requires
            0 <= x <= nd,
            0 < nd,
            0 < s,
    ;
    let pl = x * s / nd;
    assert(0 <= pl * di / s <= di) by (nonlinear_arith)
        requires
            0 <= pl <= s,
            0 <= di,
            0 < s,
    ;
}

/// Each asset bears the share of a write-off that it has in the value of
/// the account's liabilities: an asset that is all the account owes bears
/// the whole reduction, exactly, and an asset that the account does not
/// owe bears none of it.
pub proof fn lemma_write_off_goes_by_value(
    values: Seq<U64F64>,
    liabs_value: U64F64,
    reduction: U64F64,
    s: Ledger,
    k: int,
)
    requires
        0 <= k < values.len(),
        0 < liabs_value.bits,
    ensures
        values[k] == liabs_value ==> write_off_step(values, liabs_value, reduction)(s, k)
            == or_arithmetic(socialized(s.0, s.1, k, reduction)),
        values[k].bits == 0 ==> write_off_step(values, liabs_value, reduction)(s, k)
            == or_arithmetic(socialized(s.0, s.1, k, U64F64 { bits: 0 })),
{
    let v = liabs_value.bits as int;
    let one = SCALE as int;
    assert(v * one / v == one) by (nonlinear_arith)
        requires
            0 < v,
    ;
    assert(one * reduction.bits as int / one == reduction.bits) by (nonlinear_arith)
        requires
            one == 0x1_0000_0000_0000_0000,
    ;
    assert(0 * one / v == 0) by (nonlinear_arith)
        requires
            0 < v,
    ;
}

/// Paying a borrow back takes the same amount from what the account owns
/// and from what it owes, up to rounding, so that its equity stays.
///
/// Where `paid` whole native units of asset `i` are settled, the account's
/// native deposit and its native borrow, each taken exactly as shares
/// times index in units of 2^-128, both fall by at most `paid` and by more
/// than `paid` less one step of the index.
pub proof fn lemma_settled_takes_equal_amounts(
    g: GroupState,
    a: AccountState,
    i: int,
    quantity: u64,
)
    requires
        g.wf(),
        a.wf(),
        0 <= i < NUM_TOKENS,
        settled(g, a, i, quantity) is Some,
    ensures
        ({
            let (g1, a1) = settled(g, a, i, quantity)->Some_0;
            let index = g.indexes[i];
            let paid = min3(
                quantity,
                a.native_borrow(index, i)->0,
                a.native_deposit(index, i)->0,
            ) as int;
            let deposit_fall = a.deposits[i].bits - a1.deposits[i].bits;
            let borrow_fall = a.borrows[i].bits - a1.borrows[i].bits;
            &&& g1.indexes == g.indexes
            &&& 0 <= deposit_fall
            &&& 0 <= borrow_fall
            &&& g.total_deposits[i].bits - g1.total_deposits[i].bits == deposit_fall
            &&& g.total_borrows[i].bits - g1.total_borrows[i].bits == borrow_fall
            &&& deposit_fall * index.deposit.bits <= paid * SCALE * SCALE
            &&& paid * SCALE * SCALE < deposit_fall * index.deposit.bits + index.deposit.bits
            &&& borrow_fall * index.borrow.bits <= paid * SCALE * SCALE
            &&& paid * SCALE * SCALE < borrow_fall * index.borrow.bits + index.borrow.bits
        }),
{
    let index = g.indexes[i];
    let paid = min3(quantity, a.native_borrow(index, i)->0, a.native_deposit(index, i)->0);
    let amount = U64F64::of_int(paid);
    lemma_floor_div(amount.bits as int * SCALE as int, index.deposit.bits as int);
    lemma_floor_div(amount.bits as int * SCALE as int, index.borrow.bits as int);
    assert(amount.bits as int * SCALE as int == paid * SCALE * SCALE) by (nonlinear_arith)
        requires
            amount.bits == paid * SCALE,
    ;
}

/// At an index of exactly one, shares and native units are the same: a
/// whole amount divided or multiplied by the index is the amount itself.
pub proof fn lemma_shares_at_an_index_of_one(amount: u64)
    ensures
        U64F64::of_int(amount).quot(U64F64 { bits: SCALE }) == Some(U64F64::of_int(amount)),
        U64F64::of_int(amount).prod(U64F64 { bits: SCALE }) == Some(U64F64::of_int(amount)),
        U64F64::of_int(amount).int_part() == amount,
{
}

/// Powers of ten multiply as their exponents add.
proof fn lemma_pow10_adds(a: nat, b: nat)
    ensures
        pow10(a + b) == pow10(a) * pow10(b),
    decreases a,
{
    if a > 0 {
        lemma_pow10_adds((a - 1) as nat, b);
        assert(((a - 1) as nat + b) as nat == (a + b - 1) as nat);
        assert(pow10(a + b) == 10 * pow10((a + b - 1) as nat));
        assert(10 * (pow10((a - 1) as nat) * pow10(b)) == (10 * pow10((a - 1) as nat)) * pow10(b))
            by (nonlinear_arith);
    } else {
        assert(pow10(a) * pow10(b) == pow10(b)) by (nonlinear_arith)
            requires
                pow10(a) == 1,
        ;
    }
}

/// Where the base asset has no more decimals than the quote currency has
/// over the oracle, nothing is rounded in the price: it is the oracle's
/// value times ten to the power of the quote decimals less the oracle
/// decimals less the base decimals.
pub proof fn lemma_price_without_rounding(g: GroupState, i: int, median: u64)
    requires
        g.wf(),
        0 <= i < NUM_MARKETS,
        g.oracle_decimals[i] + g.mint_decimals[i] <= g.mint_decimals[NUM_MARKETS as int],
        pow10((g.mint_decimals[NUM_MARKETS as int] - g.oracle_decimals[i]) as nat) <= u64::MAX,
    ensures
        ({
            let scale = pow10(
                (g.mint_decimals[NUM_MARKETS as int] - g.oracle_decimals[i]
                    - g.mint_decimals[i]) as nat,
            );
            base_price(g, i, median) == if scale * median * SCALE <= u128::MAX {
                Some(U64F64 { bits: (scale * median * SCALE) as u128 })
            } else {
                None
            }
        }),
{
    let q = g.mint_decimals[NUM_MARKETS as int] as nat;
    let o = g.oracle_decimals[i] as nat;
    let b = g.mint_decimals[i] as nat;
    let rest = (q - o - b) as nat;
    lemma_pow10_adds(rest, b);
    lemma_pow10_grows(b, (q - o) as nat);
    lemma_pow10_grows(rest, (q - o) as nat);
    let scale = pow10(rest) as int;
    let base = pow10(b) as int;
    let s = SCALE as int;
    assert(pow10((q - o) as nat) == scale * base);
    assert(((scale * base) * s) * s / (base * s) == scale * s) by (nonlinear_arith)
        requires
            0 < base,
            0 < s,
            0 <= scale,
    ;
    assert((scale * s) * (median * s) / s == scale * median * s) by (nonlinear_arith)
        requires
            0 < s,
    ;
}

/// A product does not fall when one of its factors rises.
proof fn lemma_prod_rises(x: U64F64, low: U64F64, high: U64F64)
    requires
        low.bits <= high.bits,
        x.prod(high) is Some || high.prod(x) is Some,
    ensures
        x.prod(high) is Some,
        high.prod(x) is Some,
        x.prod(low) is Some,
        x.prod(low)->0.bits <= x.prod(high)->0.bits,
        low.prod(x) is Some,
        low.prod(x)->0.bits <= high.prod(x)->0.bits,
{
    assert(x.bits * low.bits <= x.bits * high.bits) by (nonlinear_arith)
        requires
            low.bits <= high.bits,
    ;
    assert(low.bits * x.bits == x.bits * low.bits && high.bits * x.bits == x.bits * high.bits)
        by (nonlinear_arith);
}

/// A sum does not fall when none of its terms falls.
proof fn lemma_bits_sum_rises(low: Seq<Option<U64F64>>, high: Seq<Option<U64F64>>, n: int)
    requires
        n <= low.len(),
        n <= high.len(),
        forall|k: int|
            0 <= k < n ==> (#[trigger] low[k]) is Some && high[k] is Some && low[k]->0.bits
                <= high[k]->0.bits,
    ensures
        bits_sum(low, n) <= bits_sum(high, n),
    decreases n,
{
    if n > 0 {
        lemma_bits_sum_rises(low, high, n - 1);
    }
}

/// More shares on deposit never lower what an account is worth, and leave
/// what it owes as it is: a deposit needs no check of the collateral ratio.
pub proof fn lemma_deposit_never_lowers_the_ratio(
    g: GroupState,
    a: AccountState,
    p: Seq<U64F64>,
    open_orders: Seq<OpenOrders>,
    i: int,
    quantity: U64F64,
)
    requires
        g.wf(),
        a.wf(),
        p.len() == NUM_TOKENS,
        open_orders.len() == NUM_MARKETS,
        0 <= i < NUM_TOKENS,
        add_deposit(g, a, i, quantity) is Some,
        a.collateral_ratio(g, p, open_orders) is Some,
        ({
            let (g2, a2) = add_deposit(g, a, i, quantity)->Some_0;
            a2.collateral_ratio(g2, p, open_orders) is Some
        }),
    ensures
        ({
            let (g2, a2) = add_deposit(g, a, i, quantity)->Some_0;
            &&& a2.liabs_value(g2, p) == a.liabs_value(g, p)
            &&& a2.assets_value(g2, p, open_orders)->0.bits >= a.assets_value(
                g,
                p,
                open_orders,
            )->0.bits
            &&& a2.collateral_ratio(g2, p, open_orders)->0.bits >= a.collateral_ratio(
                g,
                p,
                open_orders,
            )->0.bits
        }),
{
    let (g2, a2) = add_deposit(g, a, i, quantity)->Some_0;
    let low = a.asset_terms(g, p, open_orders);
    let high = a2.asset_terms(g2, p, open_orders);
    let n = (NUM_MARKETS + NUM_TOKENS) as int;
    assert(a2.liability_terms(g2, p) =~= a.liability_terms(g, p));
    assert forall|k: int| 0 <= k < n implies (#[trigger] low[k]) is Some && high[k] is Some
        && low[k]->0.bits <= high[k]->0.bits by {
        if k == NUM_MARKETS + i {
            let index = g.indexes[i].deposit;
            lemma_prod_rises(index, a.deposits[i], a2.deposits[i]);
            lemma_prod_rises(p[i], index.prod(a.deposits[i])->0, index.prod(a2.deposits[i])->0);
        }
    }
    lemma_bits_sum_rises(low, high, n);
    lemma_bits_sum_grows(low, 0, n);
    let liabs = a.liabs_value(g, p)->0.bits as int;
    let before = a.assets_value(g, p, open_orders)->0.bits as int;
    let after = a2.assets_value(g2, p, open_orders)->0.bits as int;
    if liabs != 0 {
        assert(before * SCALE / liabs <= after * SCALE / liabs) by (nonlinear_arith)
            requires
                0 <= before <= after,
                0 < liabs,
        ;
    }
}

/// What is left of an amount of whole units `paid` once the shares that
/// `paid` gives at the index are taken off it is less than two units.
proof fn lemma_less_than_two_units_left(shares: int, index: int, paid: int, taken: int, s: int)
    by (nonlinear_arith)
    requires
        s == 0x1_0000_0000_0000_0000,
        0 <= taken <= shares,
        0 < index < s * s,
        0 <= paid,
        shares * index < (paid + 1) * s * s,
        paid * s * s < taken * index + index,
    ensures
        0 <= (shares - taken) * index < 2 * s * s,
        0 <= (shares - taken) * index / s / s <= 1,
{
    assert((shares - taken) * index == shares * index - taken * index);
    assert(shares * index - taken * index < (paid + 1) * s * s - (paid * s * s - index));
    assert((paid + 1) * s * s - paid * s * s == s * s);
    assert(0 <= (shares - taken) * index);
}

/// A whole part that is `whole` bounds the product that it is the whole
/// part of.
proof fn lemma_whole_part_bounds(product: int, whole: int, s: int)
    by (nonlinear_arith)
    requires
        0 < s,
        0 <= product,
        product / s / s == whole,
    ensures
        product < (whole + 1) * s * s,
{
}

/// Netting a borrow against the deposit of the same asset leaves the
/// account with less than two whole units on at least one of the two
/// sides: what remains there is what rounding leaves.
pub proof fn lemma_netting_leaves_less_than_two_units(g: GroupState, a: AccountState, i: int)
    requires
        g.wf(),
        a.wf(),
        0 <= i < NUM_TOKENS,
        settled(g, a, i, u64::MAX) is Some,
    ensures
        ({
            let (g1, a1) = settled(g, a, i, u64::MAX)->Some_0;
            let index = g1.indexes[i];
            &&& a1.native_borrow(index, i) is Some
            &&& a1.native_deposit(index, i) is Some
            &&& a1.native_borrow(index, i)->0 <= 1 || a1.native_deposit(index, i)->0 <= 1
        }),
{
    let (g1, a1) = settled(g, a, i, u64::MAX)->Some_0;
    let index = g.indexes[i];
    let s = SCALE as int;
    let owed = a.native_borrow(index, i)->0;
    let owned = a.native_deposit(index, i)->0;
    let paid = min3(u64::MAX, owed, owned);
    let amount = U64F64::of_int(paid);
    assert(amount.bits as int * s == paid * s * s) by (nonlinear_arith)
        requires
            amount.bits == paid * s,
    ;
    lemma_prod_rises(index.borrow, a1.borrows[i], a.borrows[i]);
    lemma_prod_rises(index.deposit, a1.deposits[i], a.deposits[i]);
    if paid == owed {
        let shares = a.borrows[i].bits as int;
        let taken = shares - a1.borrows[i].bits;
        let idx = index.borrow.bits as int;
        lemma_floor_div(paid * s * s, idx);
        lemma_whole_part_bounds(shares * idx, paid as int, s);
        lemma_less_than_two_units_left(shares, idx, paid as int, taken, s);
    } else {
        let shares = a.deposits[i].bits as int;
        let taken = shares - a1.deposits[i].bits;
        let idx = index.deposit.bits as int;
        lemma_floor_div(paid * s * s, idx);
        lemma_whole_part_bounds(shares * idx, paid as int, s);
        lemma_less_than_two_units_left(shares, idx, paid as int, taken, s);
    }
}

/// A deposit that completes leaves every asset's native deposits covering
/// its native borrows.
pub proof fn lemma_deposit_keeps_pool_solvent(
    g: GroupState,
    a: AccountState,
    now: u64,
    vault: Address,
    quantity: u64,
)
    requires
        deposited(g, a, now, vault, quantity) is Ok,
    ensures
        forall|i: int|
            0 <= i < NUM_TOKENS ==> deposited(g, a, now, vault, quantity)->Ok_0.0.solvent(i),
{
    lemma_solvency(deposited(g, a, now, vault, quantity)->Ok_0.0);
}

/// A withdrawal that completes leaves every asset solvent and the account
/// at or above the initial collateral ratio.
pub proof fn lemma_withdraw_is_gated(
    g: GroupState,
    a: AccountState,
    now: u64,
    owner: Signer,
    open_orders: Seq<OpenOrders>,
    feeds: Seq<OracleFeed>,
    vault: Address,
    quantity: u64,
)
    requires
        g.wf(),
        a.wf(),
        withdrawn(g, a, now, owner, open_orders, feeds, vault, quantity) is Ok,
    ensures
        ({
            let (g2, a2) = withdrawn(g, a, now, owner, open_orders, feeds, vault, quantity)->Ok_0;
            &&& meets_initial_ratio(g2, a2, feeds, open_orders)
            &&& forall|i: int| 0 <= i < NUM_TOKENS ==> g2.solvent(i)
        }),
{
    let (g2, a2) = withdrawn(g, a, now, owner, open_orders, feeds, vault, quantity)->Ok_0;
    let g1 = opened(g, a, now, owner, open_orders)->Ok_0;
    lemma_prices_frame(g1, g2, feeds, NUM_MARKETS as nat);
    lemma_solvency(g2);
}

/// A borrow that completes leaves every asset solvent and the account at
/// or above the initial collateral ratio.
pub proof fn lemma_borrow_is_gated(
    g: GroupState,
    a: AccountState,
    now: u64,
    owner: Signer,
    open_orders: Seq<OpenOrders>,
    feeds: Seq<OracleFeed>,
    i: int,
    quantity: u64,
)
    requires
        g.wf(),
        a.wf(),
        borrowed(g, a, now, owner, open_orders, feeds, i, quantity) is Ok,
    ensures
        ({
            let (g2, a2) = borrowed(g, a, now, owner, open_orders, feeds, i, quantity)->Ok_0;
            &&& meets_initial_ratio(g2, a2, feeds, open_orders)
            &&& forall|k: int| 0 <= k < NUM_TOKENS ==> g2.solvent(k)
        }),
{
    let (g2, a2) = borrowed(g, a, now, owner, open_orders, feeds, i, quantity)->Ok_0;
    lemma_solvency(g2);
}

/// A settlement that completes leaves every asset solvent.
pub proof fn lemma_settle_keeps_pool_solvent(
    g: GroupState,
    a: AccountState,
    now: u64,
    owner: Signer,
    i: int,
    quantity: u64,
)
    requires
        borrow_settled(g, a, now, owner, i, quantity) is Ok,
    ensures
        forall|k: int|
            0 <= k < NUM_TOKENS ==> borrow_settled(g, a, now, owner, i, quantity)->Ok_0.0.solvent(
                k,
            ),
{
    lemma_solvency(borrow_settled(g, a, now, owner, i, quantity)->Ok_0.0);
}

/// Free balances that were settled leave every asset solvent.
pub proof fn lemma_settle_funds_keeps_pool_solvent(
    g: GroupState,
    a: AccountState,
    now: u64,
    owner: Signer,
    report: FundsReport,
)
    requires
        funds_settled(g, a, now, owner, report) is Ok,
    ensures
        forall|k: int|
            0 <= k < NUM_TOKENS ==> funds_settled(g, a, now, owner, report)->Ok_0.0.solvent(k),
{
    lemma_solvency(funds_settled(g, a, now, owner, report)->Ok_0.0);
}

/// An order placed for an account that was below the initial ratio
/// completes only if no borrow of the account has grown.
pub proof fn lemma_place_order_reduce_only(
    g: GroupState,
    a: AccountState,
    now: u64,
    owner: Signer,
    feeds: Seq<OracleFeed>,
    before: Seq<OpenOrders>,
    after: Seq<OpenOrders>,
    report: OrderReport,
)
    requires
        g.wf(),
        a.wf(),
        order_placed(g, a, now, owner, feeds, before, after, report) is Ok,
        entry_ratio(g, a, now, feeds, before) is Some,
        entry_ratio(g, a, now, feeds, before)->0.bits < g.init_coll_ratio.bits,
    ensures
        no_new_debt(a, order_placed(g, a, now, owner, feeds, before, after, report)->Ok_0.1),
        forall|k: int|
            0 <= k < NUM_TOKENS ==> order_placed(
                g,
                a,
                now,
                owner,
                feeds,
                before,
                after,
                report,
            )->Ok_0.0.solvent(k),
{
    lemma_refresh_frame(g, now, NUM_TOKENS as nat);
    lemma_solvency(order_placed(g, a, now, owner, feeds, before, after, report)->Ok_0.0);
}

/// Paying a borrow back raises no borrow of the account.
pub proof fn lemma_settled_adds_no_debt(g: GroupState, a: AccountState, i: int, quantity: u64)
    requires
        a.wf(),
        0 <= i < NUM_TOKENS,
        settled(g, a, i, quantity) is Some,
    ensures
        ({
            let (g1, a1) = settled(g, a, i, quantity)->Some_0;
            no_new_debt(a, a1) && a1.wf()
        }),
{
}

/// In reduce-only mode the flows of a trade raise no borrow of the account.
pub proof fn lemma_trade_booked_reduce_only(
    g: GroupState,
    a: AccountState,
    out_token: int,
    in_token: int,
    pre_out: u64,
    post_out: u64,
    pre_in: u64,
    post_in: u64,
)
    requires
        a.wf(),
        0 <= out_token < NUM_TOKENS,
        0 <= in_token < NUM_TOKENS,
        trade_booked(g, a, out_token, in_token, pre_out, post_out, pre_in, post_in, true) is Ok,
    ensures
        no_new_debt(
            a,
            trade_booked(g, a, out_token, in_token, pre_out, post_out, pre_in, post_in, true)->Ok_0.1,
        ),
{
}

/// An order never changes an open-orders record that the account had bound.
pub proof fn lemma_order_keeps_bindings(
    g: GroupState,
    a: AccountState,
    now: u64,
    owner: Signer,
    feeds: Seq<OracleFeed>,
    open_orders: Seq<OpenOrders>,
    spot_market: Address,
    dex_program: Address,
)
    requires
        g.wf(),
        a.wf(),
        admitted(g, a, now, owner, feeds, open_orders, spot_market, dex_program) is Ok,
    ensures
        bindings_kept(
            a,
            admitted(g, a, now, owner, feeds, open_orders, spot_market, dex_program)->Ok_0.account,
        ),
{
    lemma_refresh_frame(g, now, NUM_TOKENS as nat);
    let g1 = g.refresh(now)->Ok_0;
    let m = first_position(g1.spot_markets, spot_market)->0 as int;
    let checks = Seq::new(
        NUM_MARKETS as nat,
        |k: int| registration_check(a, g1, open_orders, m, k),
    );
    lemma_first_error_none(checks, NUM_MARKETS as nat);
    assert(checks[m] is Ok);
}

/// An order placed and settled for an account that was below the initial
/// ratio completes only if no borrow of the account has grown.
pub proof fn lemma_place_and_settle_reduce_only(
    g: GroupState,
    a: AccountState,
    now: u64,
    owner: Signer,
    feeds: Seq<OracleFeed>,
    before: Seq<OpenOrders>,
    after: Seq<OpenOrders>,
    report: TradeReport,
)
    requires
        g.wf(),
        a.wf(),
        placed_and_settled(g, a, now, owner, feeds, before, after, report) is Ok,
        entry_ratio(g, a, now, feeds, before) is Some,
        entry_ratio(g, a, now, feeds, before)->0.bits < g.init_coll_ratio.bits,
    ensures
        no_new_debt(a, placed_and_settled(g, a, now, owner, feeds, before, after, report)->Ok_0.1),
{
    lemma_refresh_frame(g, now, NUM_TOKENS as nat);
    let ad = admitted(g, a, now, owner, feeds, before, report.spot_market, report.dex_program)->Ok_0;
    let out_token = spent_token(report.side, ad.market);
    let in_token = bought_token(report.side, ad.market);
    let bid = report.side == Side::Bid;
    lemma_trade_booked_reduce_only(
        ad.group,
        ad.account,
        out_token,
        in_token,
        if bid {
            report.pre_quote
        } else {
            report.pre_base
        },
        if bid {
            report.post_quote
        } else {
            report.post_base
        },
        if bid {
            report.pre_base
        } else {
            report.pre_quote
        },
        if bid {
            report.post_base
        } else {
            report.post_quote
        },
    );
}

/// An account that is at or above the maintenance ratio when the
/// liquidation begins is never liquidated.
pub proof fn lemma_healthy_account_is_not_liquidated(
    g: GroupState,
    a: AccountState,
    now: u64,
    liqor: Signer,
    open_orders: Seq<OpenOrders>,
    feeds: Seq<OracleFeed>,
    vaults: Seq<Address>,
    quantities: Seq<u64>,
)
    requires
        g.wf(),
        entry_ratio(g, a, now, feeds, open_orders) is Some,
        entry_ratio(g, a, now, feeds, open_orders)->0.bits >= g.maint_coll_ratio.bits,
    ensures
        liquidated(g, a, now, liqor, open_orders, feeds, vaults, quantities) is Err,
{
    lemma_refresh_frame(g, now, NUM_TOKENS as nat);
}

/// One refresh lowers no index and turns no clock back.
pub proof fn lemma_refresh_raises_indexes(g: GroupState, now: u64)
    requires
        g.wf(),
        g.refresh(now) is Ok,
    ensures
        forall|i: int|
            0 <= i < NUM_TOKENS ==> {
                &&& (#[trigger] g.refresh(now)->Ok_0.indexes[i]).borrow.bits
                    >= g.indexes[i].borrow.bits
                &&& g.refresh(now)->Ok_0.indexes[i].deposit.bits >= g.indexes[i].deposit.bits
                &&& g.refresh(now)->Ok_0.indexes[i].last_update >= g.indexes[i].last_update
            },
{
    lemma_refresh_frame(g, now, NUM_TOKENS as nat);
}

/// A group whose every index is already up to date is left as it is.
proof fn lemma_refresh_of_a_fresh_group(g: GroupState, now: u64, n: nat)
    requires
        g.wf(),
        n <= NUM_TOKENS,
        forall|i: int|
            0 <= i < NUM_TOKENS ==> #[trigger] g.accrue(i, now) == Ok::<MangoIndex, MangoError>(
                g.indexes[i],
            ),
    ensures
        g.refresh_upto(now, n) == Ok::<GroupState, MangoError>(g),
    decreases n,
{
    if n > 0 {
        lemma_refresh_of_a_fresh_group(g, now, (n - 1) as nat);
        assert(g.indexes.update(n - 1, g.indexes[n - 1]) =~= g.indexes);
    }
}

/// At one time the indexes are refreshed at most once: after a refresh
/// that succeeded, another one at the same time changes nothing.
pub proof fn lemma_refresh_once_per_timestamp(g: GroupState, now: u64)
    requires
        g.wf(),
        g.refresh(now) is Ok,
    ensures
        g.refresh(now)->Ok_0.refresh(now) == g.refresh(now),
{
    lemma_refresh_frame(g, now, NUM_TOKENS as nat);
    let g1 = g.refresh(now)->Ok_0;
    assert forall|i: int| 0 <= i < NUM_TOKENS implies #[trigger] g1.accrue(i, now) == Ok::<
        MangoIndex,
        MangoError,
    >(g1.indexes[i]) by {
    }
    lemma_refresh_of_a_fresh_group(g1, now, NUM_TOKENS as nat);
}

/// The group after the indexes were refreshed at each of the first `n`
/// times in turn. A refresh that fails leaves the group as it was.
pub open spec fn refreshed_at(g: GroupState, times: Seq<u64>, n: nat) -> GroupState
    decreases n,
{
    if n == 0 {
        g
    } else {
        let before = refreshed_at(g, times, (n - 1) as nat);
        match before.refresh(times[n - 1]) {
            Ok(after) => after,
            Err(_) => before,
        }
    }
}

/// Over any sequence of refreshes, whatever the times and their order, no
/// borrow index and no deposit index ever falls.
pub proof fn lemma_indexes_never_fall(g: GroupState, times: Seq<u64>, n: nat)
    requires
        g.wf(),
        n <= times.len(),
    ensures
        refreshed_at(g, times, n).wf(),
        forall|i: int|
            0 <= i < NUM_TOKENS ==> {
                &&& (#[trigger] refreshed_at(g, times, n).indexes[i]).borrow.bits
                    >= g.indexes[i].borrow.bits
                &&& refreshed_at(g, times, n).indexes[i].deposit.bits >= g.indexes[i].deposit.bits
            },
    decreases n,
{
    if n > 0 {
        lemma_indexes_never_fall(g, times, (n - 1) as nat);
        let before = refreshed_at(g, times, (n - 1) as nat);
        if before.refresh(times[n - 1]) is Ok {
            lemma_refresh_frame(before, times[n - 1], NUM_TOKENS as nat);
        }
    }
}

} // verus!
