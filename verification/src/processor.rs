use vstd::prelude::*;
use crate::error::{MangoError, MangoResult};
use crate::fixed_point::U64F64;
use crate::group::first_position;
use crate::ledger::{
    add_borrow, add_deposit, checked_add_borrow, checked_add_deposit, checked_sub_deposit, settled,
    settle_borrow_unchecked, sub_deposit,
};
use crate::oracle::{get_prices, prices, prices_upto};
use crate::state::{
    AccountState, Address, GroupState, MangoGroup, MarginAccount, OpenOrders, OracleFeed, Signer,
    NUM_MARKETS, NUM_TOKENS, OPEN_ORDERS_FLAGS,
};
use crate::steps::{first_error, lemma_first_error_none, lemma_first_error_stays};

verus! {

/// The operations of the ledger. Each one either completes or changes
/// nothing. Those on a group that is in use first bring its indexes up to
/// date, and end by checking that every asset's deposits cover its borrows.
pub struct Processor {}

/// The request was signed by the recorded owner.
pub open spec fn authorized(owner: Address, signer: Signer) -> Result<(), MangoError> {
    if !signer.is_signer {
        Err(MangoError::MissingSignature)
    } else if signer.key != owner {
        Err(MangoError::WrongOwner)
    } else {
        Ok(())
    }
}

/// An open-orders record that is set is initialized and owned by `owner`.
pub open spec fn open_orders_valid(open_orders: OpenOrders, owner: Address) -> Result<
    (),
    MangoError,
> {
    if open_orders.key == Address::unset() {
        Ok(())
    } else if open_orders.account_flags != OPEN_ORDERS_FLAGS {
        Err(MangoError::InvalidRecord)
    } else if open_orders.owner != owner {
        Err(MangoError::WrongOwner)
    } else {
        Ok(())
    }
}

/// The record supplied for market `k` is the one the account has bound
/// there, and it is valid.
pub open spec fn binding_check(
    a: AccountState,
    g: GroupState,
    open_orders: Seq<OpenOrders>,
    k: int,
) -> Result<(), MangoError> {
    if open_orders[k].key != a.open_orders[k] {
        Err(MangoError::ReferenceMismatch)
    } else {
        open_orders_valid(open_orders[k], g.signer_key)
    }
}

/// Every supplied open-orders record is the one the account has bound.
pub open spec fn open_orders_bound(a: AccountState, g: GroupState, open_orders: Seq<OpenOrders>)
    -> Result<(), MangoError> {
    first_error(
        Seq::new(NUM_MARKETS as nat, |k: int| binding_check(a, g, open_orders, k)),
        NUM_MARKETS as nat,
    )
}

/// Asset `k`'s native deposits cover its native borrows.
pub open spec fn solvency_check(g: GroupState, k: int) -> Result<(), MangoError> {
    match (g.native_deposits(k), g.native_borrows(k)) {
        (Some(nd), Some(nb)) => if nb.bits > nd.bits {
            Err(MangoError::InvariantViolated)
        } else {
            Ok(())
        },
        _ => Err(MangoError::Arithmetic),
    }
}

/// Every asset's native deposits cover its native borrows.
pub open spec fn solvency(g: GroupState) -> Result<(), MangoError> {
    first_error(Seq::new(NUM_TOKENS as nat, |k: int| solvency_check(g, k)), NUM_TOKENS as nat)
}

/// A group that passed the solvency check is solvent in every asset.
pub proof fn lemma_solvency(g: GroupState)
    requires
        solvency(g) is Ok,
    ensures
        forall|i: int| 0 <= i < NUM_TOKENS ==> g.solvent(i),
{
    let checks = Seq::new(NUM_TOKENS as nat, |k: int| solvency_check(g, k));
    lemma_first_error_none(checks, NUM_TOKENS as nat);
    assert forall|i: int| 0 <= i < NUM_TOKENS implies g.solvent(i) by {
        assert(checks[i] is Ok);
    }
}

/// The group after the steps that begin an owner's operation: the indexes
/// are refreshed, the owner has signed, and the open-orders records are
/// the account's own.
pub open spec fn opened(
    g: GroupState,
    a: AccountState,
    now: u64,
    owner: Signer,
    open_orders: Seq<OpenOrders>,
) -> Result<GroupState, MangoError> {
    match g.refresh(now) {
        Ok(g1) => match authorized(a.owner, owner) {
            Ok(_) => match open_orders_bound(a, g1, open_orders) {
                Ok(_) => Ok(g1),
                Err(e) => Err(e),
            },
            Err(e) => Err(e),
        },
        Err(e) => Err(e),
    }
}

/// The account's collateral ratio is at least the group's initial ratio at
/// the prices that the feeds give.
pub open spec fn meets_initial_ratio(
    g: GroupState,
    a: AccountState,
    feeds: Seq<OracleFeed>,
    open_orders: Seq<OpenOrders>,
) -> bool {
    &&& prices(g, feeds) is Ok
    &&& a.collateral_ratio(g, prices(g, feeds)->Ok_0, open_orders) is Some
    &&& a.collateral_ratio(g, prices(g, feeds)->Ok_0, open_orders)->0.bits
        >= g.init_coll_ratio.bits
}

/// The checks that end an operation which takes value out of an account:
/// the collateral ratio is at least the initial ratio, and asset `i`'s whole
/// native deposits cover its whole native borrows.
pub open spec fn risk_checked(
    g: GroupState,
    a: AccountState,
    p: Seq<U64F64>,
    open_orders: Seq<OpenOrders>,
    i: int,
) -> Result<(), MangoError> {
    match a.collateral_ratio(g, p, open_orders) {
        Some(ratio) => if ratio.bits < g.init_coll_ratio.bits {
            Err(MangoError::InsufficientCollateral)
        } else {
            match g.covered(i) {
                Some(covered) => if covered {
                    Ok(())
                } else {
                    Err(MangoError::InvariantViolated)
                },
                None => Err(MangoError::Arithmetic),
            }
        },
        None => Err(MangoError::Arithmetic),
    }
}

/// The ledger once it has passed the solvency check.
pub open spec fn closed(g: GroupState, a: AccountState) -> Result<
    (GroupState, AccountState),
    MangoError,
> {
    match solvency(g) {
        Ok(_) => Ok((g, a)),
        Err(e) => Err(e),
    }
}

/// An operation did what `outcome` says: on success the records hold the
/// new ledger, and on failure they are as they were.
pub open spec fn applied(
    outcome: Result<(GroupState, AccountState), MangoError>,
    group_before: MangoGroup,
    account_before: MarginAccount,
    group_after: MangoGroup,
    account_after: MarginAccount,
    r: MangoResult<()>,
) -> bool {
    match outcome {
        Ok((g, a)) => r is Ok && group_after@ == g && account_after@ == a,
        Err(e) => r == Err::<(), MangoError>(e) && group_after == group_before && account_after
            == account_before,
    }
}

/// A deposit: `quantity` native units of the asset held in `vault` are
/// credited to the account at the deposit index.
pub open spec fn deposited(
    g: GroupState,
    a: AccountState,
    now: u64,
    vault: Address,
    quantity: u64,
) -> Result<(GroupState, AccountState), MangoError> {
    match g.refresh(now) {
        Ok(g1) => match first_position(g1.vaults, vault) {
            Some(i) => match U64F64::of_int(quantity).quot(g1.indexes[i as int].deposit) {
                Some(shares) => match add_deposit(g1, a, i as int, shares) {
                    Some((g2, a2)) => closed(g2, a2),
                    None => Err(MangoError::Arithmetic),
                },
                None => Err(MangoError::Arithmetic),
            },
            None => Err(MangoError::ReferenceMismatch),
        },
        Err(e) => Err(e),
    }
}

/// A withdrawal: `quantity` native units of the asset held in `vault` leave
/// the account's deposit, which must hold that much, and the account must
/// still meet the initial ratio.
pub open spec fn withdrawn(
    g: GroupState,
    a: AccountState,
    now: u64,
    owner: Signer,
    open_orders: Seq<OpenOrders>,
    feeds: Seq<OracleFeed>,
    vault: Address,
    quantity: u64,
) -> Result<(GroupState, AccountState), MangoError> {
    match opened(g, a, now, owner, open_orders) {
        Ok(g1) => match first_position(g1.vaults, vault) {
            Some(i) => match a.native_deposit(g1.indexes[i as int], i as int) {
                Some(available) => if available < quantity {
                    Err(MangoError::InsufficientFunds)
                } else {
                    match prices(g1, feeds) {
                        Ok(p) => match U64F64::of_int(quantity).quot(g1.indexes[i as int].deposit) {
                            Some(shares) => match sub_deposit(g1, a, i as int, shares) {
                                Some((g2, a2)) => match risk_checked(
                                    g2,
                                    a2,
                                    p,
                                    open_orders,
                                    i as int,
                                ) {
                                    Ok(_) => closed(g2, a2),
                                    Err(e) => Err(e),
                                },
                                None => Err(MangoError::Arithmetic),
                            },
                            None => Err(MangoError::Arithmetic),
                        },
                        Err(e) => Err(e),
                    }
                },
                None => Err(MangoError::Arithmetic),
            },
            None => Err(MangoError::ReferenceMismatch),
        },
        Err(e) => Err(e),
    }
}

/// A borrow: `quantity` native units of asset `i` are added to what the
/// account owes and, being at once its to spend, to what it owns. The
/// account must still meet the initial ratio and stay within the asset's
/// borrow limit.
pub open spec fn borrowed(
    g: GroupState,
    a: AccountState,
    now: u64,
    owner: Signer,
    open_orders: Seq<OpenOrders>,
    feeds: Seq<OracleFeed>,
    i: int,
    quantity: u64,
) -> Result<(GroupState, AccountState), MangoError> {
    match opened(g, a, now, owner, open_orders) {
        Ok(g1) => if !(0 <= i < NUM_TOKENS) {
            Err(MangoError::InvalidIndex)
        } else {
            let index = g1.indexes[i];
            let amount = U64F64::of_int(quantity);
            match (amount.quot(index.borrow), amount.quot(index.deposit)) {
                (Some(borrow), Some(deposit)) => match add_deposit(g1, a, i, deposit) {
                    Some((g2, a2)) => match add_borrow(g2, a2, i, borrow) {
                        Some((g3, a3)) => match prices(g3, feeds) {
                            Ok(p) => match risk_checked(g3, a3, p, open_orders, i) {
                                Ok(_) => match a3.native_borrow(index, i) {
                                    Some(owed) => if owed > g3.borrow_limits[i] {
                                        Err(MangoError::BorrowLimitExceeded)
                                    } else {
                                        closed(g3, a3)
                                    },
                                    None => Err(MangoError::Arithmetic),
                                },
                                Err(e) => Err(e),
                            },
                            Err(e) => Err(e),
                        },
                        None => Err(MangoError::Arithmetic),
                    },
                    None => Err(MangoError::Arithmetic),
                },
                _ => Err(MangoError::Arithmetic),
            }
        },
        Err(e) => Err(e),
    }
}

/// A settlement asked for by the owner: up to `quantity` native units of
/// the account's borrow of asset `i` are paid back out of its own deposit.
pub open spec fn borrow_settled(
    g: GroupState,
    a: AccountState,
    now: u64,
    owner: Signer,
    i: int,
    quantity: u64,
) -> Result<(GroupState, AccountState), MangoError> {
    match g.refresh(now) {
        Ok(g1) => match authorized(a.owner, owner) {
            Ok(_) => if !(0 <= i < NUM_TOKENS) {
                Err(MangoError::InvalidIndex)
            } else {
                match settled(g1, a, i, quantity) {
                    Some((g2, a2)) => closed(g2, a2),
                    None => Err(MangoError::Arithmetic),
                }
            },
            Err(e) => Err(e),
        },
        Err(e) => Err(e),
    }
}

/// The group with asset `i`'s borrow limit set by its administrator.
pub open spec fn limit_changed(g: GroupState, admin: Signer, i: int, limit: u64) -> Result<
    GroupState,
    MangoError,
> {
    if admin.key != g.admin {
        Err(MangoError::WrongOwner)
    } else if !admin.is_signer {
        Err(MangoError::MissingSignature)
    } else if !(0 <= i < NUM_TOKENS) {
        Err(MangoError::InvalidIndex)
    } else {
        Ok(GroupState { borrow_limits: g.borrow_limits.update(i, limit), ..g })
    }
}

/// A contribution of fee tokens: `quantity` units, which the caller has
/// moved into the group's fee vault, are added to the account's balance.
/// The balance takes no part in any valuation.
pub open spec fn srm_deposited(
    g: GroupState,
    a: AccountState,
    now: u64,
    vault: Address,
    quantity: u64,
) -> Result<(GroupState, AccountState), MangoError> {
    match g.refresh(now) {
        Ok(g1) => if vault != g1.srm_vault {
            Err(MangoError::ReferenceMismatch)
        } else if a.srm_balance + quantity > u64::MAX {
            Err(MangoError::Arithmetic)
        } else {
            closed(g1, AccountState { srm_balance: (a.srm_balance + quantity) as u64, ..a })
        },
        Err(e) => Err(e),
    }
}

/// A withdrawal of fee tokens by the account's owner: `quantity` units
/// leave the account's balance, which must hold that much.
pub open spec fn srm_withdrawn(
    g: GroupState,
    a: AccountState,
    now: u64,
    owner: Signer,
    vault: Address,
    quantity: u64,
) -> Result<(GroupState, AccountState), MangoError> {
    match g.refresh(now) {
        Ok(g1) => match authorized(a.owner, owner) {
            Ok(_) => if vault != g1.srm_vault {
                Err(MangoError::ReferenceMismatch)
            } else if a.srm_balance < quantity {
                Err(MangoError::InsufficientFunds)
            } else {
                closed(g1, AccountState { srm_balance: (a.srm_balance - quantity) as u64, ..a })
            },
            Err(e) => Err(e),
        },
        Err(e) => Err(e),
    }
}

/// Prices depend on the group's oracle bindings and decimals alone.
pub proof fn lemma_prices_frame(g: GroupState, h: GroupState, feeds: Seq<OracleFeed>, n: nat)
    requires
        g.oracles == h.oracles,
        g.mint_decimals == h.mint_decimals,
        g.oracle_decimals == h.oracle_decimals,
    ensures
        prices_upto(g, feeds, n) == prices_upto(h, feeds, n),
    decreases n,
{
    if n > 0 {
        lemma_prices_frame(g, h, feeds, (n - 1) as nat);
    }
}

/// Checks that an open-orders record which is set is initialized and
/// owned by `owner`.
pub fn check_open_orders(acc: &OpenOrders, owner: &Address) -> (r: MangoResult<()>)
    ensures
        r == open_orders_valid(*acc, *owner),
{
    if acc.key.is_unset() {
        return Ok(());
    }
    if acc.account_flags != OPEN_ORDERS_FLAGS {
        return Err(MangoError::InvalidRecord);
    }
    if acc.owner != *owner {
        return Err(MangoError::WrongOwner);
    }
    Ok(())
}

/// Checks that the request was signed by `owner`.
pub fn check_authorized(owner: &Address, signer: &Signer) -> (r: MangoResult<()>)
    ensures
        r == authorized(*owner, *signer),
{
    if !signer.is_signer {
        return Err(MangoError::MissingSignature);
    }
    if signer.key != *owner {
        return Err(MangoError::WrongOwner);
    }
    Ok(())
}

/// Checks that every supplied open-orders record is the one the account
/// has bound for its market.
pub fn check_open_orders_bound(
    margin_account: &MarginAccount,
    mango_group: &MangoGroup,
    open_orders: &[OpenOrders; NUM_MARKETS],
) -> (r: MangoResult<()>)
    ensures
        r == open_orders_bound(margin_account@, mango_group@, open_orders@),
{
    let ghost checks = Seq::new(
        NUM_MARKETS as nat,
        |k: int| binding_check(margin_account@, mango_group@, open_orders@, k),
    );
    let mut i: usize = 0;
    while i < NUM_MARKETS
        invariant
            i <= NUM_MARKETS,
            checks == Seq::new(
                NUM_MARKETS as nat,
                |k: int| binding_check(margin_account@, mango_group@, open_orders@, k),
            ),
            first_error(checks, i as nat) is Ok,
        decreases NUM_MARKETS - i,
    {
        let check = if open_orders[i].key != margin_account.open_orders[i] {
            Err(MangoError::ReferenceMismatch)
        } else {
            check_open_orders(&open_orders[i], &mango_group.signer_key)
        };
        if let Err(e) = check {
            proof {
                lemma_first_error_stays(checks, (i + 1) as nat, NUM_MARKETS as nat);
            }
            return Err(e);
        }
        i += 1;
    }
    Ok(())
}

/// Checks that every asset's native deposits cover its native borrows.
pub fn check_solvency(mango_group: &MangoGroup) -> (r: MangoResult<()>)
    ensures
        r == solvency(mango_group@),
        r is Ok ==> forall|i: int| 0 <= i < NUM_TOKENS ==> mango_group@.solvent(i),
{
    let ghost checks = Seq::new(NUM_TOKENS as nat, |k: int| solvency_check(mango_group@, k));
    let mut i: usize = 0;
    while i < NUM_TOKENS
        invariant
            i <= NUM_TOKENS,
            checks == Seq::new(NUM_TOKENS as nat, |k: int| solvency_check(mango_group@, k)),
            first_error(checks, i as nat) is Ok,
        decreases NUM_TOKENS - i,
    {
        let index = mango_group.indexes[i];
        let check = match (
            mango_group.total_deposits[i].checked_mul(index.deposit),
            mango_group.total_borrows[i].checked_mul(index.borrow),
        ) {
            (Some(nd), Some(nb)) => if nb.bits > nd.bits {
                Err(MangoError::InvariantViolated)
            } else {
                Ok(())
            },
            _ => Err(MangoError::Arithmetic),
        };
        if let Err(e) = check {
            proof {
                lemma_first_error_stays(checks, (i + 1) as nat, NUM_TOKENS as nat);
            }
            return Err(e);
        }
        i += 1;
    }
    proof {
        lemma_solvency(mango_group@);
    }
    Ok(())
}

/// The steps that begin an owner's operation.
fn open(
    mango_group: &mut MangoGroup,
    margin_account: &MarginAccount,
    now: u64,
    owner: &Signer,
    open_orders: &[OpenOrders; NUM_MARKETS],
) -> (r: MangoResult<()>)
    ensures
        match opened(old(mango_group)@, margin_account@, now, *owner, open_orders@) {
            Ok(g) => r is Ok && final(mango_group)@ == g,
            Err(e) => r == Err::<(), MangoError>(e),
        },
{
    mango_group.update_indexes(now)?;
    check_authorized(&margin_account.owner, owner)?;
    check_open_orders_bound(margin_account, mango_group, open_orders)
}

/// The checks that end an operation which takes value out of an account.
fn check_risk(
    mango_group: &MangoGroup,
    margin_account: &MarginAccount,
    prices: &[U64F64; NUM_TOKENS],
    open_orders: &[OpenOrders; NUM_MARKETS],
    token_index: usize,
) -> (r: MangoResult<()>)
    requires
        token_index < NUM_TOKENS,
    ensures
        r == risk_checked(
            mango_group@,
            margin_account@,
            prices@,
            open_orders@,
            token_index as int,
        ),
{
    let coll_ratio = margin_account.get_collateral_ratio(mango_group, prices, open_orders)?;
    if coll_ratio.bits < mango_group.init_coll_ratio.bits {
        return Err(MangoError::InsufficientCollateral);
    }
    if !mango_group.has_valid_deposits_borrows(token_index)? {
        return Err(MangoError::InvariantViolated);
    }
    Ok(())
}

impl Processor {
    /// Credits `quantity` native units, which the caller has moved into
    /// `vault`, to the account.
    pub fn deposit(
        mango_group: &mut MangoGroup,
        margin_account: &mut MarginAccount,
        now: u64,
        vault: &Address,
        quantity: u64,
    ) -> (r: MangoResult<()>)
        ensures
            applied(
                deposited(old(mango_group)@, old(margin_account)@, now, *vault, quantity),
                *old(mango_group),
                *old(margin_account),
                *final(mango_group),
                *final(margin_account),
                r,
            ),
            r is Ok ==> forall|i: int| 0 <= i < NUM_TOKENS ==> final(mango_group)@.solvent(i),
    {
        let mut group = *mango_group;
        let mut account = *margin_account;
        group.update_indexes(now)?;
        let token_index: usize = match group.get_token_index_with_vault(vault) {
            Some(i) => i,
            None => { return Err(MangoError::ReferenceMismatch); },
        };
        let deposit = match U64F64::from_num(quantity).checked_div(
            group.indexes[token_index].deposit,
        ) {
            Some(v) => v,
            None => { return Err(MangoError::Arithmetic); },
        };
        checked_add_deposit(&mut group, &mut account, token_index, deposit)?;
        check_solvency(&group)?;
        *mango_group = group;
        *margin_account = account;
        Ok(())
    }

    /// Takes `quantity` native units out of the account's deposit of the
    /// asset held in `vault`; on success the caller moves them out of the
    /// vault. Never succeeds where it would leave the account below the
    /// initial collateral ratio.
    pub fn withdraw(
        mango_group: &mut MangoGroup,
        margin_account: &mut MarginAccount,
        now: u64,
        owner: &Signer,
        open_orders: &[OpenOrders; NUM_MARKETS],
        oracles: &[OracleFeed; NUM_MARKETS],
        vault: &Address,
        quantity: u64,
    ) -> (r: MangoResult<()>)
        ensures
            applied(
                withdrawn(
                    old(mango_group)@,
                    old(margin_account)@,
                    now,
                    *owner,
                    open_orders@,
                    oracles@,
                    *vault,
                    quantity,
                ),
                *old(mango_group),
                *old(margin_account),
                *final(mango_group),
                *final(margin_account),
                r,
            ),
            r is Ok ==> meets_initial_ratio(
                final(mango_group)@,
                final(margin_account)@,
                oracles@,
                open_orders@,
            ),
            r is Ok ==> forall|i: int| 0 <= i < NUM_TOKENS ==> final(mango_group)@.solvent(i),
    {
        let mut group = *mango_group;
        let mut account = *margin_account;
        open(&mut group, &account, now, owner, open_orders)?;
        let token_index: usize = match group.get_token_index_with_vault(vault) {
            Some(i) => i,
            None => { return Err(MangoError::ReferenceMismatch); },
        };
        let index = group.indexes[token_index];
        let available: u64 = account.get_native_deposit(&index, token_index)?;
        if available < quantity {
            return Err(MangoError::InsufficientFunds);
        }
        let prices = get_prices(&group, oracles)?;
        let ghost g1 = group@;
        let withdrew = match U64F64::from_num(quantity).checked_div(index.deposit) {
            Some(v) => v,
            None => { return Err(MangoError::Arithmetic); },
        };
        checked_sub_deposit(&mut group, &mut account, token_index, withdrew)?;
        check_risk(&group, &account, &prices, open_orders, token_index)?;
        check_solvency(&group)?;
        proof {
            lemma_prices_frame(g1, group@, oracles@, NUM_MARKETS as nat);
        }
        *mango_group = group;
        *margin_account = account;
        Ok(())
    }

    /// Lends the account `quantity` native units of an asset and credits
    /// them to its deposit. Never succeeds where it would leave the account
    /// below the initial collateral ratio.
    pub fn borrow(
        mango_group: &mut MangoGroup,
        margin_account: &mut MarginAccount,
        now: u64,
        owner: &Signer,
        open_orders: &[OpenOrders; NUM_MARKETS],
        oracles: &[OracleFeed; NUM_MARKETS],
        token_index: usize,
        quantity: u64,
    ) -> (r: MangoResult<()>)
        ensures
            applied(
                borrowed(
                    old(mango_group)@,
                    old(margin_account)@,
                    now,
                    *owner,
                    open_orders@,
                    oracles@,
                    token_index as int,
                    quantity,
                ),
                *old(mango_group),
                *old(margin_account),
                *final(mango_group),
                *final(margin_account),
                r,
            ),
            r is Ok ==> meets_initial_ratio(
                final(mango_group)@,
                final(margin_account)@,
                oracles@,
                open_orders@,
            ),
            r is Ok ==> forall|i: int| 0 <= i < NUM_TOKENS ==> final(mango_group)@.solvent(i),
    {
        let mut group = *mango_group;
        let mut account = *margin_account;
        open(&mut group, &account, now, owner, open_orders)?;
        if token_index >= NUM_TOKENS {
            return Err(MangoError::InvalidIndex);
        }
        let index = group.indexes[token_index];
        let amount = U64F64::from_num(quantity);
        let (borrow, deposit) = match (
            amount.checked_div(index.borrow),
            amount.checked_div(index.deposit),
        ) {
            (Some(b), Some(d)) => (b, d),
            _ => { return Err(MangoError::Arithmetic); },
        };
        checked_add_deposit(&mut group, &mut account, token_index, deposit)?;
        checked_add_borrow(&mut group, &mut account, token_index, borrow)?;
        let prices = get_prices(&group, oracles)?;
        check_risk(&group, &account, &prices, open_orders, token_index)?;
        if account.get_native_borrow(&index, token_index)? > group.borrow_limits[token_index] {
            return Err(MangoError::BorrowLimitExceeded);
        }
        check_solvency(&group)?;
        *mango_group = group;
        *margin_account = account;
        Ok(())
    }

    /// Pays back up to `quantity` native units of the account's borrow of
    /// an asset out of its own deposit of it.
    pub fn settle_borrow(
        mango_group: &mut MangoGroup,
        margin_account: &mut MarginAccount,
        now: u64,
        owner: &Signer,
        token_index: usize,
        quantity: u64,
    ) -> (r: MangoResult<()>)
        ensures
            applied(
                borrow_settled(
                    old(mango_group)@,
                    old(margin_account)@,
                    now,
                    *owner,
                    token_index as int,
                    quantity,
                ),
                *old(mango_group),
                *old(margin_account),
                *final(mango_group),
                *final(margin_account),
                r,
            ),
            r is Ok ==> forall|i: int| 0 <= i < NUM_TOKENS ==> final(mango_group)@.solvent(i),
    {
        let mut group = *mango_group;
        let mut account = *margin_account;
        group.update_indexes(now)?;
        check_authorized(&account.owner, owner)?;
        if token_index >= NUM_TOKENS {
            return Err(MangoError::InvalidIndex);
        }
        settle_borrow_unchecked(&mut group, &mut account, token_index, quantity)?;
        check_solvency(&group)?;
        *mango_group = group;
        *margin_account = account;
        Ok(())
    }

    /// Adds `quantity` fee tokens, which the caller has moved into the
    /// group's fee vault, to the account's balance.
    pub fn deposit_srm(
        mango_group: &mut MangoGroup,
        margin_account: &mut MarginAccount,
        now: u64,
        vault: &Address,
        quantity: u64,
    ) -> (r: MangoResult<()>)
        ensures
            applied(
                srm_deposited(old(mango_group)@, old(margin_account)@, now, *vault, quantity),
                *old(mango_group),
                *old(margin_account),
                *final(mango_group),
                *final(margin_account),
                r,
            ),
            r is Ok ==> forall|i: int| 0 <= i < NUM_TOKENS ==> final(mango_group)@.solvent(i),
    {
        let mut group = *mango_group;
        group.update_indexes(now)?;
        if *vault != group.srm_vault {
            return Err(MangoError::ReferenceMismatch);
        }
        let balance: u64 = match margin_account.srm_balance.checked_add(quantity) {
            Some(v) => v,
            None => { return Err(MangoError::Arithmetic); },
        };
        check_solvency(&group)?;
        *mango_group = group;
        margin_account.srm_balance = balance;
        Ok(())
    }

    /// Takes `quantity` fee tokens out of the account's balance; on
    /// success the caller moves them out of the group's fee vault.
    pub fn withdraw_srm(
        mango_group: &mut MangoGroup,
        margin_account: &mut MarginAccount,
        now: u64,
        owner: &Signer,
        vault: &Address,
        quantity: u64,
    ) -> (r: MangoResult<()>)
        ensures
            applied(
                srm_withdrawn(
                    old(mango_group)@,
                    old(margin_account)@,
                    now,
                    *owner,
                    *vault,
                    quantity,
                ),
                *old(mango_group),
                *old(margin_account),
                *final(mango_group),
                *final(margin_account),
                r,
            ),
            r is Ok ==> forall|i: int| 0 <= i < NUM_TOKENS ==> final(mango_group)@.solvent(i),
    {
        let mut group = *mango_group;
        group.update_indexes(now)?;
        check_authorized(&margin_account.owner, owner)?;
        if *vault != group.srm_vault {
            return Err(MangoError::ReferenceMismatch);
        }
        if margin_account.srm_balance < quantity {
            return Err(MangoError::InsufficientFunds);
        }
        check_solvency(&group)?;
        *mango_group = group;
        margin_account.srm_balance = margin_account.srm_balance - quantity;
        Ok(())
    }

    /// Sets an asset's borrow limit. Only the group's administrator may.
    pub fn change_borrow_limit(
        mango_group: &mut MangoGroup,
        admin: &Signer,
        token_index: usize,
        borrow_limit: u64,
    ) -> (r: MangoResult<()>)
        ensures
            match limit_changed(old(mango_group)@, *admin, token_index as int, borrow_limit) {
                Ok(g) => r is Ok && final(mango_group)@ == g,
                Err(e) => r == Err::<(), MangoError>(e) && *final(mango_group) == *old(
                    mango_group,
                ),
            },
    {
        if admin.key != mango_group.admin {
            return Err(MangoError::WrongOwner);
        }
        if !admin.is_signer {
            return Err(MangoError::MissingSignature);
        }
        if token_index >= NUM_TOKENS {
            return Err(MangoError::InvalidIndex);
        }
        mango_group.borrow_limits[token_index] = borrow_limit;
        Ok(())
    }
}

} // verus!
