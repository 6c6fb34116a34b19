use vstd::prelude::*;
use crate::error::{or_arithmetic, MangoError, MangoResult};
use crate::fixed_point::U64F64;
use crate::group::first_position;
use crate::ledger::{
    add_borrow, add_deposit, checked_add_borrow, checked_add_deposit, checked_sub_deposit, settled,
    settle_borrow_full_unchecked, sub_deposit,
};
use crate::oracle::{get_prices, prices};
use crate::processor::{
    applied, authorized, binding_check, check_authorized, check_open_orders, check_solvency,
    closed, Processor,
};
use crate::state::{
    AccountState, Address, FundsReport, GroupState, MangoGroup, MarginAccount, OpenOrders,
    OracleFeed, OrderReport, Side, Signer, TradeReport, NUM_MARKETS, NUM_TOKENS,
};
use crate::steps::{first_error, lemma_first_error_none, lemma_first_error_stays};

verus! {

/// The record supplied for market `k` may serve an order on market
/// `market`: on that market it must be set, and where the account has none
/// bound there yet it must be fresh; in every other case it must be the
/// one the account has bound.
pub open spec fn registration_check(
    a: AccountState,
    g: GroupState,
    open_orders: Seq<OpenOrders>,
    market: int,
    k: int,
) -> Result<(), MangoError> {
    if k == market && open_orders[k].key == Address::unset() {
        Err(MangoError::ReferenceMismatch)
    } else if k == market && a.open_orders[k] == Address::unset() {
        if open_orders[k].account_flags != 0 {
            Err(MangoError::InvalidRecord)
        } else {
            Ok(())
        }
    } else {
        binding_check(a, g, open_orders, k)
    }
}

/// The account once the open-orders record for `market` is bound to it.
/// A binding that is set never changes.
pub open spec fn registered(
    a: AccountState,
    g: GroupState,
    open_orders: Seq<OpenOrders>,
    market: int,
) -> Result<AccountState, MangoError> {
    match first_error(
        Seq::new(NUM_MARKETS as nat, |k: int| registration_check(a, g, open_orders, market, k)),
        NUM_MARKETS as nat,
    ) {
        Ok(_) => Ok(
            AccountState { open_orders: a.open_orders.update(market, open_orders[market].key), ..a },
        ),
        Err(e) => Err(e),
    }
}

/// What is known once an order has been admitted: the refreshed ledger
/// with the open-orders record bound, the prices, the market, and whether
/// the account may only reduce its debt.
pub struct Admission {
    pub group: GroupState,
    pub account: AccountState,
    pub prices: Seq<U64F64>,
    pub market: int,
    pub reduce_only: bool,
}

/// The account's collateral ratio once the indexes are refreshed, before
/// anything else is done.
pub open spec fn entry_ratio(
    g: GroupState,
    a: AccountState,
    now: u64,
    feeds: Seq<OracleFeed>,
    open_orders: Seq<OpenOrders>,
) -> Option<U64F64> {
    match g.refresh(now) {
        Ok(g1) => match prices(g1, feeds) {
            Ok(p) => a.collateral_ratio(g1, p, open_orders),
            Err(_) => None,
        },
        Err(_) => None,
    }
}

/// The steps before an order goes to the venue. An account that is below
/// the initial ratio at this point may only reduce its debt.
pub open spec fn admitted(
    g: GroupState,
    a: AccountState,
    now: u64,
    owner: Signer,
    feeds: Seq<OracleFeed>,
    open_orders: Seq<OpenOrders>,
    spot_market: Address,
    dex_program: Address,
) -> Result<Admission, MangoError> {
    match g.refresh(now) {
        Ok(g1) => match prices(g1, feeds) {
            Ok(p) => match a.collateral_ratio(g1, p, open_orders) {
                Some(ratio) => match authorized(a.owner, owner) {
                    Ok(_) => match first_position(g1.spot_markets, spot_market) {
                        Some(m) => match registered(a, g1, open_orders, m as int) {
                            Ok(a1) => if dex_program != g1.dex_program_id {
                                Err(MangoError::ReferenceMismatch)
                            } else {
                                Ok(
                                    Admission {
                                        group: g1,
                                        account: a1,
                                        prices: p,
                                        market: m as int,
                                        reduce_only: ratio.bits < g1.init_coll_ratio.bits,
                                    },
                                )
                            },
                            Err(e) => Err(e),
                        },
                        None => Err(MangoError::ReferenceMismatch),
                    },
                    Err(e) => Err(e),
                },
                None => Err(MangoError::Arithmetic),
            },
            Err(e) => Err(e),
        },
        Err(e) => Err(e),
    }
}

/// The ledger after `amount` native units of asset `i` have left the
/// account: they come out of its deposit as far as that reaches, and only
/// the rest is new debt, which an account in reduce-only mode may not take
/// and which must stay within the asset's borrow limit.
pub open spec fn spent(g: GroupState, a: AccountState, i: int, amount: u64, reduce_only: bool)
    -> Result<(GroupState, AccountState), MangoError> {
    let index = g.indexes[i];
    match a.native_deposit(index, i) {
        Some(owned) => if owned >= amount {
            match U64F64::of_int(amount).quot(index.deposit) {
                Some(shares) => or_arithmetic(sub_deposit(g, a, i, shares)),
                None => Err(MangoError::Arithmetic),
            }
        } else {
            match sub_deposit(g, a, i, a.deposits[i]) {
                Some((g1, a1)) => if reduce_only {
                    Err(MangoError::ReduceOnly)
                } else {
                    match U64F64::of_int((amount - owned) as u64).quot(index.borrow) {
                        Some(shares) => match add_borrow(g1, a1, i, shares) {
                            Some((g2, a2)) => match a2.native_borrow(index, i) {
                                Some(owed) => if owed > g2.borrow_limits[i] {
                                    Err(MangoError::BorrowLimitExceeded)
                                } else {
                                    Ok((g2, a2))
                                },
                                None => Err(MangoError::Arithmetic),
                            },
                            None => Err(MangoError::Arithmetic),
                        },
                        None => Err(MangoError::Arithmetic),
                    }
                },
                None => Err(MangoError::Arithmetic),
            }
        },
        None => Err(MangoError::Arithmetic),
    }
}

/// The ledger after `amount` native units of asset `i` have come to the
/// account.
pub open spec fn received(g: GroupState, a: AccountState, i: int, amount: u64) -> Result<
    (GroupState, AccountState),
    MangoError,
> {
    match U64F64::of_int(amount).quot(g.indexes[i].deposit) {
        Some(shares) => or_arithmetic(add_deposit(g, a, i, shares)),
        None => Err(MangoError::Arithmetic),
    }
}

/// The checks that end a trade: unless the account was in reduce-only
/// mode, it meets the initial ratio; and asset `i`'s whole native deposits
/// cover its whole native borrows.
pub open spec fn trade_checked(
    g: GroupState,
    a: AccountState,
    p: Seq<U64F64>,
    open_orders: Seq<OpenOrders>,
    i: int,
    reduce_only: bool,
) -> Result<(), MangoError> {
    match a.collateral_ratio(g, p, open_orders) {
        Some(ratio) => if !reduce_only && ratio.bits < g.init_coll_ratio.bits {
            Err(MangoError::InsufficientCollateral)
        } else {
            match g.covered(i) {
                Some(covered) => if covered {
                    Ok(())
                } else {
                    Err(MangoError::InvariantViolated)
                },
                None => Err(MangoError::Arithmetic),
            }
        },
        None => Err(MangoError::Arithmetic),
    }
}

/// The asset that an order on `market` spends: the quote currency for a
/// bid, the market's base asset for an ask.
pub open spec fn spent_token(side: Side, market: int) -> int {
    match side {
        Side::Bid => NUM_MARKETS as int,
        Side::Ask => market,
    }
}

/// The asset that an order on `market` buys.
pub open spec fn bought_token(side: Side, market: int) -> int {
    match side {
        Side::Bid => market,
        Side::Ask => NUM_MARKETS as int,
    }
}

/// An order placed on the venue: what left the vault is taken from the
/// account.
pub open spec fn order_placed(
    g: GroupState,
    a: AccountState,
    now: u64,
    owner: Signer,
    feeds: Seq<OracleFeed>,
    before: Seq<OpenOrders>,
    after: Seq<OpenOrders>,
    report: OrderReport,
) -> Result<(GroupState, AccountState), MangoError> {
    match admitted(g, a, now, owner, feeds, before, report.spot_market, report.dex_program) {
        Ok(ad) => {
            let token = spent_token(report.side, ad.market);
            if ad.group.vaults[token] != report.vault {
                Err(MangoError::ReferenceMismatch)
            } else if report.post_amount > report.pre_amount {
                Err(MangoError::Arithmetic)
            } else {
                match spent(
                    ad.group,
                    ad.account,
                    token,
                    (report.pre_amount - report.post_amount) as u64,
                    ad.reduce_only,
                ) {
                    Ok((g2, a2)) => match trade_checked(
                        g2,
                        a2,
                        ad.prices,
                        after,
                        token,
                        ad.reduce_only,
                    ) {
                        Ok(_) => closed(g2, a2),
                        Err(e) => Err(e),
                    },
                    Err(e) => Err(e),
                }
            }
        },
        Err(e) => Err(e),
    }
}

/// The ledger after the net flow of the spent asset through its vault has
/// been booked: an outflow is spent, an inflow received.
pub open spec fn out_flow_booked(
    g: GroupState,
    a: AccountState,
    i: int,
    pre: u64,
    post: u64,
    reduce_only: bool,
) -> Result<(GroupState, AccountState), MangoError> {
    if post < pre {
        spent(g, a, i, (pre - post) as u64, reduce_only)
    } else {
        received(g, a, i, (post - pre) as u64)
    }
}

/// The ledger after both flows of a trade have been booked and the
/// account's borrows of the two assets have been paid back out of its own
/// deposits as far as those reach.
pub open spec fn trade_booked(
    g: GroupState,
    a: AccountState,
    out_token: int,
    in_token: int,
    pre_out: u64,
    post_out: u64,
    pre_in: u64,
    post_in: u64,
    reduce_only: bool,
) -> Result<(GroupState, AccountState), MangoError> {
    match out_flow_booked(g, a, out_token, pre_out, post_out, reduce_only) {
        Ok((g1, a1)) => if post_in < pre_in {
            Err(MangoError::Arithmetic)
        } else {
            match received(g1, a1, in_token, (post_in - pre_in) as u64) {
                Ok((g2, a2)) => match settled(g2, a2, out_token, u64::MAX) {
                    Some((g3, a3)) => or_arithmetic(settled(g3, a3, in_token, u64::MAX)),
                    None => Err(MangoError::Arithmetic),
                },
                Err(e) => Err(e),
            }
        },
        Err(e) => Err(e),
    }
}

/// An order placed on the venue and settled at once: the net flows through
/// the market's two vaults are booked on the account.
pub open spec fn placed_and_settled(
    g: GroupState,
    a: AccountState,
    now: u64,
    owner: Signer,
    feeds: Seq<OracleFeed>,
    before: Seq<OpenOrders>,
    after: Seq<OpenOrders>,
    report: TradeReport,
) -> Result<(GroupState, AccountState), MangoError> {
    match admitted(g, a, now, owner, feeds, before, report.spot_market, report.dex_program) {
        Ok(ad) => {
            let out_token = spent_token(report.side, ad.market);
            let in_token = bought_token(report.side, ad.market);
            let bid = report.side == Side::Bid;
            if ad.group.vaults[ad.market] != report.base_vault || ad.group.vaults[NUM_MARKETS as int]
                != report.quote_vault {
                Err(MangoError::ReferenceMismatch)
            } else {
                match trade_booked(
                    ad.group,
                    ad.account,
                    out_token,
                    in_token,
                    if bid {
                        report.pre_quote
                    } else {
                        report.pre_base
                    },
                    if bid {
                        report.post_quote
                    } else {
                        report.post_base
                    },
                    if bid {
                        report.pre_base
                    } else {
                        report.pre_quote
                    },
                    if bid {
                        report.post_base
                    } else {
                        report.post_quote
                    },
                    ad.reduce_only,
                ) {
                    Ok((g2, a2)) => match trade_checked(
                        g2,
                        a2,
                        ad.prices,
                        after,
                        out_token,
                        ad.reduce_only,
                    ) {
                        Ok(_) => closed(g2, a2),
                        Err(e) => Err(e),
                    },
                    Err(e) => Err(e),
                }
            }
        },
        Err(e) => Err(e),
    }
}

/// Free balances settled from the venue into the vaults: what left the
/// account's open-orders record is credited to its deposits. Nothing is
/// booked for a record that is not set or that had nothing free.
pub open spec fn funds_settled(
    g: GroupState,
    a: AccountState,
    now: u64,
    owner: Signer,
    report: FundsReport,
) -> Result<(GroupState, AccountState), MangoError> {
    match g.refresh(now) {
        Ok(g1) => match first_position(g1.spot_markets, report.spot_market) {
            Some(m) => match authorized(a.owner, owner) {
                Ok(_) => if a.open_orders[m as int] != report.open_orders || g1.vaults[m as int]
                    != report.base_vault || g1.vaults[NUM_MARKETS as int] != report.quote_vault
                    || g1.dex_program_id != report.dex_program {
                    Err(MangoError::ReferenceMismatch)
                } else if report.open_orders == Address::unset() || (report.pre_base == 0
                    && report.pre_quote == 0) {
                    closed(g1, a)
                } else if report.post_base > report.pre_base || report.post_quote
                    > report.pre_quote {
                    Err(MangoError::Arithmetic)
                } else {
                    match received(g1, a, m as int, (report.pre_base - report.post_base) as u64) {
                        Ok((g2, a2)) => match received(
                            g2,
                            a2,
                            NUM_MARKETS as int,
                            (report.pre_quote - report.post_quote) as u64,
                        ) {
                            Ok((g3, a3)) => closed(g3, a3),
                            Err(e) => Err(e),
                        },
                        Err(e) => Err(e),
                    }
                },
                Err(e) => Err(e),
            },
            None => Err(MangoError::ReferenceMismatch),
        },
        Err(e) => Err(e),
    }
}

/// The checks before an order is cancelled on the venue. Only the indexes
/// change.
pub open spec fn order_cancelled(
    g: GroupState,
    a: AccountState,
    now: u64,
    owner: Signer,
    spot_market: Address,
    dex_program: Address,
    open_orders: Address,
) -> Result<(GroupState, AccountState), MangoError> {
    match g.refresh(now) {
        Ok(g1) => if dex_program != g1.dex_program_id {
            Err(MangoError::ReferenceMismatch)
        } else {
            match authorized(a.owner, owner) {
                Ok(_) => match first_position(g1.spot_markets, spot_market) {
                    Some(m) => if a.open_orders[m as int] != open_orders {
                        Err(MangoError::ReferenceMismatch)
                    } else {
                        closed(g1, a)
                    },
                    None => Err(MangoError::ReferenceMismatch),
                },
                Err(e) => Err(e),
            }
        },
        Err(e) => Err(e),
    }
}

/// Every open-orders record that the account had bound is still bound.
pub open spec fn bindings_kept(before: AccountState, after: AccountState) -> bool {
    forall|k: int|
        0 <= k < NUM_MARKETS && before.open_orders[k] != Address::unset() ==> (
        #[trigger] after.open_orders[k]) == before.open_orders[k]
}

/// No borrow of the account has grown.
pub open spec fn no_new_debt(before: AccountState, after: AccountState) -> bool {
    forall|i: int|
        0 <= i < NUM_TOKENS ==> (#[trigger] after.borrows[i]).bits <= before.borrows[i].bits
}

/// What the exec code knows of an admitted order.
struct Admitted {
    prices: [U64F64; NUM_TOKENS],
    market: usize,
    reduce_only: bool,
}

/// Binds the open-orders record for `market` to the account.
fn register(
    margin_account: &mut MarginAccount,
    mango_group: &MangoGroup,
    open_orders: &[OpenOrders; NUM_MARKETS],
    market: usize,
) -> (r: MangoResult<()>)
    requires
        market < NUM_MARKETS,
    ensures
        match registered(old(margin_account)@, mango_group@, open_orders@, market as int) {
            Ok(a) => r is Ok && final(margin_account)@ == a,
            Err(e) => r == Err::<(), MangoError>(e),
        },
        r is Ok ==> bindings_kept(old(margin_account)@, final(margin_account)@),
{
    let ghost a0 = margin_account@;
    let ghost checks = Seq::new(
        NUM_MARKETS as nat,
        |k: int| registration_check(a0, mango_group@, open_orders@, market as int, k),
    );
    let mut i: usize = 0;
    while i < NUM_MARKETS
        invariant
            i <= NUM_MARKETS,
            market < NUM_MARKETS,
            a0 == old(margin_account)@,
            checks == Seq::new(
                NUM_MARKETS as nat,
                |k: int| registration_check(a0, mango_group@, open_orders@, market as int, k),
            ),
            first_error(checks, i as nat) is Ok,
            margin_account@ == (if market < i {
                AccountState {
                    open_orders: a0.open_orders.update(
                        market as int,
                        open_orders@[market as int].key,
                    ),
                    ..a0
                }
            } else {
                a0
            }),
        decreases NUM_MARKETS - i,
    {
        let check = if i == market && open_orders[i].key.is_unset() {
            Err(MangoError::ReferenceMismatch)
        } else if i == market && margin_account.open_orders[i].is_unset() {
            if open_orders[i].account_flags != 0 {
                Err(MangoError::InvalidRecord)
            } else {
                Ok(())
            }
        } else if open_orders[i].key != margin_account.open_orders[i] {
            Err(MangoError::ReferenceMismatch)
        } else {
            check_open_orders(&open_orders[i], &mango_group.signer_key)
        };
        if let Err(e) = check {
            proof {
                lemma_first_error_stays(checks, (i + 1) as nat, NUM_MARKETS as nat);
            }
            return Err(e);
        }
        if i == market {
            margin_account.open_orders[i] = open_orders[i].key;
        }
        i += 1;
    }
    proof {
        lemma_first_error_none(checks, NUM_MARKETS as nat);
        assert(checks[market as int] is Ok);
    }
    Ok(())
}

/// The steps before an order goes to the venue.
fn admit_order(
    mango_group: &mut MangoGroup,
    margin_account: &mut MarginAccount,
    now: u64,
    owner: &Signer,
    oracles: &[OracleFeed; NUM_MARKETS],
    open_orders: &[OpenOrders; NUM_MARKETS],
    spot_market: &Address,
    dex_program: &Address,
) -> (r: MangoResult<Admitted>)
    ensures
        match admitted(
            old(mango_group)@,
            old(margin_account)@,
            now,
            *owner,
            oracles@,
            open_orders@,
            *spot_market,
            *dex_program,
        ) {
            Ok(ad) => r is Ok && final(mango_group)@ == ad.group && final(margin_account)@
                == ad.account && r->Ok_0.prices@ == ad.prices && r->Ok_0.market == ad.market
                && r->Ok_0.reduce_only == ad.reduce_only && r->Ok_0.market < NUM_MARKETS,
            Err(e) => r == Err::<Admitted, MangoError>(e),
        },
        r is Ok ==> (r->Ok_0.reduce_only <==> entry_ratio(
            old(mango_group)@,
            old(margin_account)@,
            now,
            oracles@,
            open_orders@,
        ) is Some && entry_ratio(
            old(mango_group)@,
            old(margin_account)@,
            now,
            oracles@,
            open_orders@,
        )->0.bits < old(mango_group)@.init_coll_ratio.bits),
        r is Ok ==> final(margin_account)@.borrows == old(margin_account)@.borrows,
        r is Ok ==> bindings_kept(old(margin_account)@, final(margin_account)@),
{
    proof {
        if old(mango_group)@.refresh(now) is Ok {
            crate::group::lemma_refresh_frame(old(mango_group)@, now, NUM_TOKENS as nat);
        }
    }
    mango_group.update_indexes(now)?;
    let prices = get_prices(mango_group, oracles)?;
    let coll_ratio = margin_account.get_collateral_ratio(mango_group, &prices, open_orders)?;
    let reduce_only = coll_ratio.bits < mango_group.init_coll_ratio.bits;
    check_authorized(&margin_account.owner, owner)?;
    let market: usize = match mango_group.get_market_index(spot_market) {
        Some(m) => m,
        None => { return Err(MangoError::ReferenceMismatch); },
    };
    register(margin_account, mango_group, open_orders, market)?;
    if *dex_program != mango_group.dex_program_id {
        return Err(MangoError::ReferenceMismatch);
    }
    Ok(Admitted { prices, market, reduce_only })
}

/// Takes `amount` native units of an asset from the account.
fn spend(
    mango_group: &mut MangoGroup,
    margin_account: &mut MarginAccount,
    token_i: usize,
    amount: u64,
    reduce_only: bool,
) -> (r: MangoResult<()>)
    requires
        token_i < NUM_TOKENS,
    ensures
        match spent(old(mango_group)@, old(margin_account)@, token_i as int, amount, reduce_only) {
            Ok((g, a)) => r is Ok && final(mango_group)@ == g && final(margin_account)@ == a,
            Err(e) => r == Err::<(), MangoError>(e),
        },
        r is Ok && reduce_only ==> final(margin_account)@.borrows == old(margin_account)@.borrows,
        r is Ok ==> final(margin_account)@.open_orders == old(margin_account)@.open_orders,
{
    let index = mango_group.indexes[token_i];
    let native_deposit: u64 = margin_account.get_native_deposit(&index, token_i)?;
    if native_deposit >= amount {
        let spent_deposit = match U64F64::from_num(amount).checked_div(index.deposit) {
            Some(v) => v,
            None => { return Err(MangoError::Arithmetic); },
        };
        checked_sub_deposit(mango_group, margin_account, token_i, spent_deposit)
    } else {
        let avail_deposit = margin_account.deposits[token_i];
        checked_sub_deposit(mango_group, margin_account, token_i, avail_deposit)?;
        if reduce_only {
            return Err(MangoError::ReduceOnly);
        }
        let rem_spend = U64F64::from_num(amount - native_deposit);
        let shares = match rem_spend.checked_div(index.borrow) {
            Some(v) => v,
            None => { return Err(MangoError::Arithmetic); },
        };
        checked_add_borrow(mango_group, margin_account, token_i, shares)?;
        if margin_account.get_native_borrow(&index, token_i)? > mango_group.borrow_limits[token_i] {
            return Err(MangoError::BorrowLimitExceeded);
        }
        Ok(())
    }
}

/// Credits `amount` native units of an asset to the account.
pub(crate) fn receive(
    mango_group: &mut MangoGroup,
    margin_account: &mut MarginAccount,
    token_i: usize,
    amount: u64,
) -> (r: MangoResult<()>)
    requires
        token_i < NUM_TOKENS,
    ensures
        match received(old(mango_group)@, old(margin_account)@, token_i as int, amount) {
            Ok((g, a)) => r is Ok && final(mango_group)@ == g && final(margin_account)@ == a,
            Err(e) => r == Err::<(), MangoError>(e),
        },
        r is Ok ==> final(margin_account)@.borrows == old(margin_account)@.borrows,
        r is Ok ==> final(margin_account)@.open_orders == old(margin_account)@.open_orders,
{
    let shares = match U64F64::from_num(amount).checked_div(mango_group.indexes[token_i].deposit) {
        Some(v) => v,
        None => { return Err(MangoError::Arithmetic); },
    };
    checked_add_deposit(mango_group, margin_account, token_i, shares)
}

/// The checks that end a trade.
fn check_trade(
    mango_group: &MangoGroup,
    margin_account: &MarginAccount,
    prices: &[U64F64; NUM_TOKENS],
    open_orders: &[OpenOrders; NUM_MARKETS],
    token_index: usize,
    reduce_only: bool,
) -> (r: MangoResult<()>)
    requires
        token_index < NUM_TOKENS,
    ensures
        r == trade_checked(
            mango_group@,
            margin_account@,
            prices@,
            open_orders@,
            token_index as int,
            reduce_only,
        ),
{
    let coll_ratio = margin_account.get_collateral_ratio(mango_group, prices, open_orders)?;
    if !reduce_only && coll_ratio.bits < mango_group.init_coll_ratio.bits {
        return Err(MangoError::InsufficientCollateral);
    }
    if !mango_group.has_valid_deposits_borrows(token_index)? {
        return Err(MangoError::InvariantViolated);
    }
    Ok(())
}

/// Pays back the account's borrow of an asset as far as its deposit reaches.
fn settle_full(
    mango_group: &mut MangoGroup,
    margin_account: &mut MarginAccount,
    token_i: usize,
) -> (r: MangoResult<()>)
    requires
        token_i < NUM_TOKENS,
    ensures
        match settled(old(mango_group)@, old(margin_account)@, token_i as int, u64::MAX) {
            Some((g, a)) => r is Ok && final(mango_group)@ == g && final(margin_account)@ == a,
            None => r == Err::<(), MangoError>(MangoError::Arithmetic),
        },
        r is Ok ==> no_new_debt(old(margin_account)@, final(margin_account)@),
        r is Ok ==> final(margin_account)@.open_orders == old(margin_account)@.open_orders,
{
    settle_borrow_full_unchecked(mango_group, margin_account, token_i)
}

/// Books both flows of a trade and pays the borrows of the two assets
/// back as far as the deposits reach.
fn book_trade(
    mango_group: &mut MangoGroup,
    margin_account: &mut MarginAccount,
    out_token_i: usize,
    in_token_i: usize,
    pre_out: u64,
    post_out: u64,
    pre_in: u64,
    post_in: u64,
    reduce_only: bool,
) -> (r: MangoResult<()>)
    requires
        out_token_i < NUM_TOKENS,
        in_token_i < NUM_TOKENS,
    ensures
        match trade_booked(
            old(mango_group)@,
            old(margin_account)@,
            out_token_i as int,
            in_token_i as int,
            pre_out,
            post_out,
            pre_in,
            post_in,
            reduce_only,
        ) {
            Ok((g, a)) => r is Ok && final(mango_group)@ == g && final(margin_account)@ == a,
            Err(e) => r == Err::<(), MangoError>(e),
        },
        r is Ok && reduce_only ==> no_new_debt(old(margin_account)@, final(margin_account)@),
        r is Ok ==> final(margin_account)@.open_orders == old(margin_account)@.open_orders,
{
    if post_out < pre_out {
        let total_out: u64 = pre_out - post_out;
        spend(mango_group, margin_account, out_token_i, total_out, reduce_only)?;
    } else {
        let gained: u64 = post_out - pre_out;
        receive(mango_group, margin_account, out_token_i, gained)?;
    }
    if post_in < pre_in {
        return Err(MangoError::Arithmetic);
    }
    let total_in: u64 = post_in - pre_in;
    receive(mango_group, margin_account, in_token_i, total_in)?;
    settle_full(mango_group, margin_account, out_token_i)?;
    settle_full(mango_group, margin_account, in_token_i)?;
    Ok(())
}

impl Processor {
    /// Books an order that the venue has taken: what the order took out of
    /// the vault comes out of the account's deposit first, and only the
    /// rest is borrowed. An account that was below the initial ratio
    /// before the order succeeds only without new debt.
    pub fn place_order(
        mango_group: &mut MangoGroup,
        margin_account: &mut MarginAccount,
        now: u64,
        owner: &Signer,
        oracles: &[OracleFeed; NUM_MARKETS],
        open_orders_before: &[OpenOrders; NUM_MARKETS],
        open_orders_after: &[OpenOrders; NUM_MARKETS],
        report: &OrderReport,
    ) -> (r: MangoResult<()>)
        ensures
            applied(
                order_placed(
                    old(mango_group)@,
                    old(margin_account)@,
                    now,
                    *owner,
                    oracles@,
                    open_orders_before@,
                    open_orders_after@,
                    *report,
                ),
                *old(mango_group),
                *old(margin_account),
                *final(mango_group),
                *final(margin_account),
                r,
            ),
            r is Ok && entry_ratio(
                old(mango_group)@,
                old(margin_account)@,
                now,
                oracles@,
                open_orders_before@,
            ) is Some && entry_ratio(
                old(mango_group)@,
                old(margin_account)@,
                now,
                oracles@,
                open_orders_before@,
            )->0.bits < old(mango_group)@.init_coll_ratio.bits ==> no_new_debt(
                old(margin_account)@,
                final(margin_account)@,
            ),
            r is Ok ==> forall|i: int| 0 <= i < NUM_TOKENS ==> final(mango_group)@.solvent(i),
            r is Ok ==> bindings_kept(old(margin_account)@, final(margin_account)@),
    {
        let mut group = *mango_group;
        let mut account = *margin_account;
        let ad = admit_order(
            &mut group,
            &mut account,
            now,
            owner,
            oracles,
            open_orders_before,
            &report.spot_market,
            &report.dex_program,
        )?;
        let token_i: usize = match report.side {
            Side::Bid => NUM_MARKETS,
            Side::Ask => ad.market,
        };
        if group.vaults[token_i] != report.vault {
            return Err(MangoError::ReferenceMismatch);
        }
        if report.post_amount > report.pre_amount {
            return Err(MangoError::Arithmetic);
        }
        let spent_amount: u64 = report.pre_amount - report.post_amount;
        spend(&mut group, &mut account, token_i, spent_amount, ad.reduce_only)?;
        check_trade(&group, &account, &ad.prices, open_orders_after, token_i, ad.reduce_only)?;
        check_solvency(&group)?;
        *mango_group = group;
        *margin_account = account;
        Ok(())
    }

    /// Books an order that the venue has taken and settled at once. An
    /// account that was below the initial ratio before the order succeeds
    /// only without new debt.
    pub fn place_and_settle(
        mango_group: &mut MangoGroup,
        margin_account: &mut MarginAccount,
        now: u64,
        owner: &Signer,
        oracles: &[OracleFeed; NUM_MARKETS],
        open_orders_before: &[OpenOrders; NUM_MARKETS],
        open_orders_after: &[OpenOrders; NUM_MARKETS],
        report: &TradeReport,
    ) -> (r: MangoResult<()>)
        ensures
            applied(
                placed_and_settled(
                    old(mango_group)@,
                    old(margin_account)@,
                    now,
                    *owner,
                    oracles@,
                    open_orders_before@,
                    open_orders_after@,
                    *report,
                ),
                *old(mango_group),
                *old(margin_account),
                *final(mango_group),
                *final(margin_account),
                r,
            ),
            r is Ok && entry_ratio(
                old(mango_group)@,
                old(margin_account)@,
                now,
                oracles@,
                open_orders_before@,
            ) is Some && entry_ratio(
                old(mango_group)@,
                old(margin_account)@,
                now,
                oracles@,
                open_orders_before@,
            )->0.bits < old(mango_group)@.init_coll_ratio.bits ==> no_new_debt(
                old(margin_account)@,
                final(margin_account)@,
            ),
            r is Ok ==> forall|i: int| 0 <= i < NUM_TOKENS ==> final(mango_group)@.solvent(i),
            r is Ok ==> bindings_kept(old(margin_account)@, final(margin_account)@),
    {
        let mut group = *mango_group;
        let mut account = *margin_account;
        let ad = admit_order(
            &mut group,
            &mut account,
            now,
            owner,
            oracles,
            open_orders_before,
            &report.spot_market,
            &report.dex_program,
        )?;
        let (in_token_i, out_token_i) = match report.side {
            Side::Bid => (ad.market, NUM_MARKETS),
            Side::Ask => (NUM_MARKETS, ad.market),
        };
        if group.vaults[ad.market] != report.base_vault || group.vaults[NUM_MARKETS]
            != report.quote_vault {
            return Err(MangoError::ReferenceMismatch);
        }
        let (pre_in, pre_out, post_in, post_out) = match report.side {
            Side::Bid => (report.pre_base, report.pre_quote, report.post_base, report.post_quote),
            Side::Ask => (report.pre_quote, report.pre_base, report.post_quote, report.post_base),
        };
        book_trade(
            &mut group,
            &mut account,
            out_token_i,
            in_token_i,
            pre_out,
            post_out,
            pre_in,
            post_in,
            ad.reduce_only,
        )?;
        check_trade(&group, &account, &ad.prices, open_orders_after, out_token_i, ad.reduce_only)?;
        check_solvency(&group)?;
        *mango_group = group;
        *margin_account = account;
        Ok(())
    }

    /// Books free balances that the venue has paid out into the vaults as
    /// deposits of the account.
    pub fn settle_funds(
        mango_group: &mut MangoGroup,
        margin_account: &mut MarginAccount,
        now: u64,
        owner: &Signer,
        report: &FundsReport,
    ) -> (r: MangoResult<()>)
        ensures
            applied(
                funds_settled(old(mango_group)@, old(margin_account)@, now, *owner, *report),
                *old(mango_group),
                *old(margin_account),
                *final(mango_group),
                *final(margin_account),
                r,
            ),
            r is Ok ==> forall|i: int| 0 <= i < NUM_TOKENS ==> final(mango_group)@.solvent(i),
    {
        let mut group = *mango_group;
        let mut account = *margin_account;
        group.update_indexes(now)?;
        let market: usize = match group.get_market_index(&report.spot_market) {
            Some(m) => m,
            None => { return Err(MangoError::ReferenceMismatch); },
        };
        check_authorized(&account.owner, owner)?;
        if account.open_orders[market] != report.open_orders || group.vaults[market]
            != report.base_vault || group.vaults[NUM_MARKETS] != report.quote_vault
            || group.dex_program_id != report.dex_program {
            return Err(MangoError::ReferenceMismatch);
        }
        if report.open_orders.is_unset() || (report.pre_base == 0 && report.pre_quote == 0) {
            check_solvency(&group)?;
            *mango_group = group;
            return Ok(());
        }
        if report.post_base > report.pre_base || report.post_quote > report.pre_quote {
            return Err(MangoError::Arithmetic);
        }
        let base_change: u64 = report.pre_base - report.post_base;
        let quote_change: u64 = report.pre_quote - report.post_quote;
        receive(&mut group, &mut account, market, base_change)?;
        receive(&mut group, &mut account, NUM_MARKETS, quote_change)?;
        check_solvency(&group)?;
        *mango_group = group;
        *margin_account = account;
        Ok(())
    }

    /// Checks that the account's owner may cancel an order on the market.
    /// The caller then has the venue cancel it.
    pub fn cancel_order(
        mango_group: &mut MangoGroup,
        margin_account: &MarginAccount,
        now: u64,
        owner: &Signer,
        spot_market: &Address,
        dex_program: &Address,
        open_orders: &Address,
    ) -> (r: MangoResult<()>)
        ensures
            match order_cancelled(
                old(mango_group)@,
                margin_account@,
                now,
                *owner,
                *spot_market,
                *dex_program,
                *open_orders,
            ) {
                Ok((g, a)) => r is Ok && final(mango_group)@ == g,
                Err(e) => r == Err::<(), MangoError>(e) && *final(mango_group) == *old(
                    mango_group,
                ),
            },
            r is Ok ==> forall|i: int| 0 <= i < NUM_TOKENS ==> final(mango_group)@.solvent(i),
    {
        let mut group = *mango_group;
        group.update_indexes(now)?;
        if *dex_program != group.dex_program_id {
            return Err(MangoError::ReferenceMismatch);
        }
        check_authorized(&margin_account.owner, owner)?;
        let market: usize = match group.get_market_index(spot_market) {
            Some(m) => m,
            None => { return Err(MangoError::ReferenceMismatch); },
        };
        if margin_account.open_orders[market] != *open_orders {
            return Err(MangoError::ReferenceMismatch);
        }
        check_solvency(&group)?;
        *mango_group = group;
        Ok(())
    }
}

} // verus!
