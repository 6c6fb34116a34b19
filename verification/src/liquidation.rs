use vstd::prelude::*;
use crate::error::{or_arithmetic, MangoError, MangoResult};
use crate::fixed_point::{SCALE, U64F64};
use crate::group::lemma_refresh_frame;
use crate::ledger::{settle_borrow_unchecked, settled, socialize_loss, socialized};
use crate::oracle::{get_prices, prices};
use crate::processor::{
    check_open_orders_bound, check_solvency, open_orders_bound, solvency, Processor,
};
use crate::state::{
    AccountState, Address, GroupState, MangoGroup, MarginAccount, OpenOrders, OracleFeed, Signer,
    NUM_MARKETS, NUM_TOKENS,
};
use crate::steps::{lemma_run_steps_error_stays, run_steps};
use crate::trading::{entry_ratio, receive, received};

verus! {

/// Bit pattern of the ratio that a write-off aims at: 1.01.
pub const TARGET_RATIO_BITS: u128 = 0x1_028F_5C28_F5C2_9000;

/// How a liquidation ended.
#[derive(Clone, Copy, PartialEq, Eq, Structural, Debug)]
pub enum LiquidationOutcome {
    /// Paying the account's borrows back out of its own deposits brought
    /// it to the maintenance ratio. Nothing is owed by the liquidator and
    /// the account stays with its owner.
    Settled,
    /// The liquidator's deposits restored the account, which is now the
    /// liquidator's. The caller moves the deposits into the vaults.
    Liquidated,
}

/// A ledger: the group and one of its accounts.
pub type Ledger = (GroupState, AccountState);

/// Pays asset `k`'s borrow back out of the account's own deposit of it.
pub open spec fn settle_step() -> spec_fn(Ledger, int) -> Result<Ledger, MangoError> {
    |s: Ledger, k: int|
        match s.1.native_borrow(s.0.indexes[k], k) {
            Some(owed) => or_arithmetic(settled(s.0, s.1, k, owed)),
            None => Err(MangoError::Arithmetic),
        }
}

/// The ledger after every asset's borrow has been paid back out of the
/// account's own deposits, as far as those reach.
pub open spec fn all_settled(g: GroupState, a: AccountState) -> Result<Ledger, MangoError> {
    run_steps((g, a), settle_step(), NUM_TOKENS as nat)
}

/// The value by which the liabilities must fall for the assets to be 1.01
/// times what is left of them.
pub open spec fn reduction_value(
    a: AccountState,
    g: GroupState,
    p: Seq<U64F64>,
    open_orders: Seq<OpenOrders>,
) -> Option<U64F64> {
    match (a.liabs_value(g, p), a.assets_value(g, p, open_orders)) {
        (Some(liabs), Some(assets)) => match assets.quot(U64F64 { bits: TARGET_RATIO_BITS }) {
            Some(covered) => liabs.diff(covered),
            None => None,
        },
        _ => None,
    }
}

/// Writes off asset `k`'s part of the reduction: the part that the value
/// of the account's borrow of the asset is of the value of all its
/// liabilities.
pub open spec fn write_off_step(values: Seq<U64F64>, liabs_value: U64F64, reduction: U64F64)
    -> spec_fn(Ledger, int) -> Result<Ledger, MangoError> {
    |s: Ledger, k: int|
        match values[k].quot(liabs_value) {
            Some(proportion) => match proportion.prod(reduction) {
                Some(loss) => or_arithmetic(socialized(s.0, s.1, k, loss)),
                None => Err(MangoError::Arithmetic),
            },
            None => Err(MangoError::Arithmetic),
        }
}

/// The ledger of an insolvent account after the reduction has been
/// written off, each asset bearing the share of it that the asset has in
/// the value of the account's liabilities.
pub open spec fn written_off(
    g: GroupState,
    a: AccountState,
    p: Seq<U64F64>,
    open_orders: Seq<OpenOrders>,
) -> Result<Ledger, MangoError> {
    match (a.liabs_value(g, p), reduction_value(a, g, p, open_orders)) {
        (Some(liabs_value), Some(reduction)) => run_steps(
            (g, a),
            write_off_step(a.borrow_values(g, p), liabs_value, reduction),
            NUM_TOKENS as nat,
        ),
        _ => Err(MangoError::Arithmetic),
    }
}

/// Credits the liquidator's deposit of asset `k` to the account. The
/// vault it goes to must be the group's.
pub open spec fn pull_step(vaults: Seq<Address>, quantities: Seq<u64>) -> spec_fn(
    Ledger,
    int,
) -> Result<Ledger, MangoError> {
    |s: Ledger, k: int|
        if quantities[k] == 0 {
            Ok(s)
        } else if s.0.vaults[k] != vaults[k] {
            Err(MangoError::ReferenceMismatch)
        } else {
            received(s.0, s.1, k, quantities[k])
        }
}

/// The ledger after the liquidator's deposits have been credited.
pub open spec fn deposits_pulled(
    g: GroupState,
    a: AccountState,
    vaults: Seq<Address>,
    quantities: Seq<u64>,
) -> Result<Ledger, MangoError> {
    run_steps((g, a), pull_step(vaults, quantities), NUM_TOKENS as nat)
}

/// What happens to an account that may be liquidated: its borrows are paid
/// back out of its own deposits; if that does not bring it to the ratio
/// `enough`, debt is written off where it is insolvent, the liquidator's
/// deposits are credited, and the account, which must then meet the
/// initial ratio, becomes the liquidator's.
pub open spec fn seized(
    g: GroupState,
    a: AccountState,
    p: Seq<U64F64>,
    open_orders: Seq<OpenOrders>,
    enough: U64F64,
    liqor: Address,
    vaults: Seq<Address>,
    quantities: Seq<u64>,
) -> Result<(GroupState, AccountState, LiquidationOutcome), MangoError> {
    match all_settled(g, a) {
        Ok((g2, a2)) => match a2.collateral_ratio(g2, p, open_orders) {
            Some(ratio) => if ratio.bits >= enough.bits {
                match solvency(g2) {
                    Ok(_) => Ok((g2, a2, LiquidationOutcome::Settled)),
                    Err(e) => Err(e),
                }
            } else {
                match (if ratio.bits < SCALE {
                    written_off(g2, a2, p, open_orders)
                } else {
                    Ok((g2, a2))
                }) {
                    Ok((g3, a3)) => match deposits_pulled(g3, a3, vaults, quantities) {
                        Ok((g4, a4)) => match a4.collateral_ratio(g4, p, open_orders) {
                            Some(restored) => if restored.bits < g4.init_coll_ratio.bits {
                                Err(MangoError::InsufficientCollateral)
                            } else {
                                match solvency(g4) {
                                    Ok(_) => Ok(
                                        (
                                            g4,
                                            AccountState { owner: liqor, ..a4 },
                                            LiquidationOutcome::Liquidated,
                                        ),
                                    ),
                                    Err(e) => Err(e),
                                }
                            },
                            None => Err(MangoError::Arithmetic),
                        },
                        Err(e) => Err(e),
                    },
                    Err(e) => Err(e),
                }
            },
            None => Err(MangoError::Arithmetic),
        },
        Err(e) => Err(e),
    }
}

/// A liquidation. An account at or above the maintenance ratio is never
/// liquidated.
pub open spec fn liquidated(
    g: GroupState,
    a: AccountState,
    now: u64,
    liqor: Signer,
    open_orders: Seq<OpenOrders>,
    feeds: Seq<OracleFeed>,
    vaults: Seq<Address>,
    quantities: Seq<u64>,
) -> Result<(GroupState, AccountState, LiquidationOutcome), MangoError> {
    if !liqor.is_signer {
        Err(MangoError::MissingSignature)
    } else {
        match g.refresh(now) {
            Ok(g1) => match open_orders_bound(a, g1, open_orders) {
                Ok(_) => match prices(g1, feeds) {
                    Ok(p) => match a.collateral_ratio(g1, p, open_orders) {
                        Some(ratio) => if ratio.bits >= g1.maint_coll_ratio.bits {
                            Err(MangoError::NotLiquidatable)
                        } else {
                            seized(
                                g1,
                                a,
                                p,
                                open_orders,
                                g1.maint_coll_ratio,
                                liqor.key,
                                vaults,
                                quantities,
                            )
                        },
                        None => Err(MangoError::Arithmetic),
                    },
                    Err(e) => Err(e),
                },
                Err(e) => Err(e),
            },
            Err(e) => Err(e),
        }
    }
}

/// The two snapshots are of the same records.
pub open spec fn same_keys(x: Seq<OpenOrders>, y: Seq<OpenOrders>) -> bool {
    forall|k: int| 0 <= k < NUM_MARKETS ==> (#[trigger] x[k]).key == y[k].key
}

/// No balance of any of the records is locked in an order: all that a
/// record holds is free.
pub open spec fn nothing_locked(records: Seq<OpenOrders>) -> bool {
    forall|k: int|
        0 <= k < NUM_MARKETS && (#[trigger] records[k]).key != Address::unset() ==> records[k].native_coin_free
            == records[k].native_coin_total && records[k].native_pc_free
            == records[k].native_pc_total
}

/// Books what the venue paid out of market `k`'s open-orders record when
/// its free balances were settled: the fall of its free base balance as a
/// deposit of the base asset, and that of its free quote balance as a
/// deposit of the quote currency.
pub open spec fn release_step(cancelled: Seq<OpenOrders>, after: Seq<OpenOrders>) -> spec_fn(
    Ledger,
    int,
) -> Result<Ledger, MangoError> {
    |s: Ledger, k: int|
        if cancelled[k].key == Address::unset() {
            Ok(s)
        } else if after[k].native_coin_free > cancelled[k].native_coin_free
            || after[k].native_pc_free > cancelled[k].native_pc_free {
            Err(MangoError::Arithmetic)
        } else {
            match received(
                s.0,
                s.1,
                k,
                (cancelled[k].native_coin_free - after[k].native_coin_free) as u64,
            ) {
                Ok((g1, a1)) => received(
                    g1,
                    a1,
                    NUM_MARKETS as int,
                    (cancelled[k].native_pc_free - after[k].native_pc_free) as u64,
                ),
                Err(e) => Err(e),
            }
        }
}

/// A liquidation that first takes back what the account had resting on
/// the venue. `before` is the state of its open-orders records at the
/// start, `cancelled` their state once every order was cancelled, in which
/// nothing may be locked any more, and `after` their state once the free
/// balances were settled.
pub open spec fn partially_liquidated(
    g: GroupState,
    a: AccountState,
    now: u64,
    liqor: Signer,
    before: Seq<OpenOrders>,
    cancelled: Seq<OpenOrders>,
    after: Seq<OpenOrders>,
    feeds: Seq<OracleFeed>,
    vaults: Seq<Address>,
    quantities: Seq<u64>,
) -> Result<(GroupState, AccountState, LiquidationOutcome), MangoError> {
    if !liqor.is_signer {
        Err(MangoError::MissingSignature)
    } else {
        match g.refresh(now) {
            Ok(g1) => match open_orders_bound(a, g1, before) {
                Ok(_) => if !same_keys(before, cancelled) || !same_keys(before, after) {
                    Err(MangoError::ReferenceMismatch)
                } else if !nothing_locked(cancelled) {
                    Err(MangoError::OrdersResting)
                } else {
                    match prices(g1, feeds) {
                        Ok(p) => match a.collateral_ratio(g1, p, before) {
                            Some(ratio) => if ratio.bits >= g1.maint_coll_ratio.bits {
                                Err(MangoError::NotLiquidatable)
                            } else {
                                match run_steps(
                                    (g1, a),
                                    release_step(cancelled, after),
                                    NUM_MARKETS as nat,
                                ) {
                                    Ok((g2, a2)) => seized(
                                        g2,
                                        a2,
                                        p,
                                        after,
                                        g2.init_coll_ratio,
                                        liqor.key,
                                        vaults,
                                        quantities,
                                    ),
                                    Err(e) => Err(e),
                                }
                            },
                            None => Err(MangoError::Arithmetic),
                        },
                        Err(e) => Err(e),
                    }
                },
                Err(e) => Err(e),
            },
            Err(e) => Err(e),
        }
    }
}

/// Whether a slot of an open-orders record holds an order: its bit in the
/// record's word of free slots is clear.
pub open spec fn slot_in_use(free_slot_bits: u128, slot: u8) -> bool {
    (free_slot_bits >> (slot as u128)) & 1 == 0
}

/// The slots of an open-orders record that hold an order, lowest first.
/// These are the orders to cancel before the record's balances are free.
pub fn resting_orders(free_slot_bits: u128) -> (r: Vec<u8>)
    ensures
        forall|k: int| 0 <= k < r@.len() ==> r@[k] < 128 && slot_in_use(free_slot_bits, #[trigger] r@[k]),
        forall|k: int, l: int| 0 <= k < l < r@.len() ==> r@[k] < r@[l],
        forall|slot: u8| slot < 128 && slot_in_use(free_slot_bits, slot) ==> r@.contains(slot),
{
    let mut slots: Vec<u8> = Vec::new();
    let mut j: u8 = 0;
    while j < 128
        invariant
            j <= 128,
            forall|k: int|
                0 <= k < slots@.len() ==> slots@[k] < j && slot_in_use(
                    free_slot_bits,
                    #[trigger] slots@[k],
                ),
            forall|k: int, l: int| 0 <= k < l < slots@.len() ==> slots@[k] < slots@[l],
            forall|slot: u8|
                slot < j && slot_in_use(free_slot_bits, slot) ==> slots@.contains(slot),
        decreases 128 - j,
    {
        if (free_slot_bits >> (j as u128)) & 1 == 0 {
            let ghost before = slots@;
            slots.push(j);
            assert(slots@[before.len() as int] == j);
            assert forall|slot: u8|
                slot < j + 1 && slot_in_use(free_slot_bits, slot) implies slots@.contains(
                slot,
            ) by {
                if slot < j {
                    let k = choose|k: int| 0 <= k < before.len() && before[k] == slot;
                    assert(slots@[k] == slot);
                }
            }
        }
        j += 1;
    }
    slots
}

/// Whether two snapshots are of the same records.
fn same_records(x: &[OpenOrders; NUM_MARKETS], y: &[OpenOrders; NUM_MARKETS]) -> (r: bool)
    ensures
        r == same_keys(x@, y@),
{
    let mut i: usize = 0;
    while i < NUM_MARKETS
        invariant
            i <= NUM_MARKETS,
            forall|k: int| 0 <= k < i ==> (#[trigger] x@[k]).key == y@[k].key,
        decreases NUM_MARKETS - i,
    {
        if x[i].key != y[i].key {
            return false;
        }
        i += 1;
    }
    true
}

/// Whether all that the records hold is free.
fn all_unlocked(records: &[OpenOrders; NUM_MARKETS]) -> (r: bool)
    ensures
        r == nothing_locked(records@),
{
    let mut i: usize = 0;
    while i < NUM_MARKETS
        invariant
            i <= NUM_MARKETS,
            forall|k: int|
                0 <= k < i && (#[trigger] records@[k]).key != Address::unset()
                    ==> records@[k].native_coin_free == records@[k].native_coin_total
                    && records@[k].native_pc_free == records@[k].native_pc_total,
        decreases NUM_MARKETS - i,
    {
        if !records[i].key.is_unset() && (records[i].native_coin_free
            != records[i].native_coin_total || records[i].native_pc_free
            != records[i].native_pc_total) {
            return false;
        }
        i += 1;
    }
    true
}

/// Books what the venue paid out of every open-orders record.
fn release_all(
    mango_group: &mut MangoGroup,
    margin_account: &mut MarginAccount,
    cancelled: &[OpenOrders; NUM_MARKETS],
    after: &[OpenOrders; NUM_MARKETS],
) -> (r: MangoResult<()>)
    ensures
        match run_steps(
            (old(mango_group)@, old(margin_account)@),
            release_step(cancelled@, after@),
            NUM_MARKETS as nat,
        ) {
            Ok((g, a)) => r is Ok && final(mango_group)@ == g && final(margin_account)@ == a,
            Err(e) => r == Err::<(), MangoError>(e),
        },
{
    let ghost start = (mango_group@, margin_account@);
    let ghost step = release_step(cancelled@, after@);
    let mut i: usize = 0;
    while i < NUM_MARKETS
        invariant
            i <= NUM_MARKETS,
            step == release_step(cancelled@, after@),
            start == (old(mango_group)@, old(margin_account)@),
            run_steps(start, step, i as nat) == Ok::<Ledger, MangoError>(
                (mango_group@, margin_account@),
            ),
        decreases NUM_MARKETS - i,
    {
        if !cancelled[i].key.is_unset() {
            let done = if after[i].native_coin_free > cancelled[i].native_coin_free
                || after[i].native_pc_free > cancelled[i].native_pc_free {
                Err(MangoError::Arithmetic)
            } else {
                let base: u64 = cancelled[i].native_coin_free - after[i].native_coin_free;
                let quote: u64 = cancelled[i].native_pc_free - after[i].native_pc_free;
                match receive(mango_group, margin_account, i, base) {
                    Ok(_) => receive(mango_group, margin_account, NUM_MARKETS, quote),
                    Err(e) => Err(e),
                }
            };
            if let Err(e) = done {
                proof {
                    lemma_run_steps_error_stays(start, step, (i + 1) as nat, NUM_MARKETS as nat);
                }
                return Err(e);
            }
        }
        i += 1;
    }
    Ok(())
}

/// Pays every asset's borrow back out of the account's own deposits.
fn settle_all(mango_group: &mut MangoGroup, margin_account: &mut MarginAccount) -> (r:
    MangoResult<()>)
    ensures
        match all_settled(old(mango_group)@, old(margin_account)@) {
            Ok((g, a)) => r is Ok && final(mango_group)@ == g && final(margin_account)@ == a,
            Err(e) => r == Err::<(), MangoError>(e),
        },
{
    let ghost start = (mango_group@, margin_account@);
    let mut i: usize = 0;
    while i < NUM_TOKENS
        invariant
            i <= NUM_TOKENS,
            start == (old(mango_group)@, old(margin_account)@),
            run_steps(start, settle_step(), i as nat) == Ok::<Ledger, MangoError>(
                (mango_group@, margin_account@),
            ),
        decreases NUM_TOKENS - i,
    {
        let step = match margin_account.get_native_borrow(&mango_group.indexes[i], i) {
            Ok(native_borrow) => settle_borrow_unchecked(
                mango_group,
                margin_account,
                i,
                native_borrow,
            ),
            Err(e) => Err(e),
        };
        if let Err(e) = step {
            proof {
                lemma_run_steps_error_stays(
                    start,
                    settle_step(),
                    (i + 1) as nat,
                    NUM_TOKENS as nat,
                );
            }
            return Err(e);
        }
        i += 1;
    }
    Ok(())
}

/// Writes the reduction off an insolvent account, each asset bearing its
/// share by value.
fn write_off(
    mango_group: &mut MangoGroup,
    margin_account: &mut MarginAccount,
    prices: &[U64F64; NUM_TOKENS],
    open_orders: &[OpenOrders; NUM_MARKETS],
) -> (r: MangoResult<()>)
    ensures
        match written_off(old(mango_group)@, old(margin_account)@, prices@, open_orders@) {
            Ok((g, a)) => r is Ok && final(mango_group)@ == g && final(margin_account)@ == a,
            Err(e) => r == Err::<(), MangoError>(e),
        },
{
    let liabs_val = margin_account.get_liabs_val(mango_group, prices)?;
    let assets_val = margin_account.get_assets_val(mango_group, prices, open_orders)?;
    let reduction_val = match assets_val.checked_div(U64F64 { bits: TARGET_RATIO_BITS }) {
        Some(covered) => match liabs_val.checked_sub(covered) {
            Some(v) => v,
            None => { return Err(MangoError::Arithmetic); },
        },
        None => { return Err(MangoError::Arithmetic); },
    };
    let ghost terms = margin_account@.liability_terms(mango_group@, prices@);
    let mut values = [U64F64::zero();NUM_TOKENS];
    let mut k: usize = 0;
    while k < NUM_TOKENS
        invariant
            k <= NUM_TOKENS,
            *mango_group == *old(mango_group),
            *margin_account == *old(margin_account),
            terms == margin_account@.liability_terms(mango_group@, prices@),
            forall|j: int| 0 <= j < NUM_TOKENS ==> (#[trigger] terms[j]) is Some,
            forall|j: int|
                0 <= j < k ==> (#[trigger] values@[j]) == margin_account@.borrow_value(
                    mango_group@,
                    prices@,
                    j,
                )->0,
        decreases NUM_TOKENS - k,
    {
        assert(terms[k as int] is Some);
        values[k] = margin_account.get_borrow_val(mango_group, prices, k)?;
        k += 1;
    }
    assert(values@ =~= margin_account@.borrow_values(mango_group@, prices@));
    let ghost start = (mango_group@, margin_account@);
    let ghost step = write_off_step(values@, liabs_val, reduction_val);
    let mut i: usize = 0;
    while i < NUM_TOKENS
        invariant
            i <= NUM_TOKENS,
            step == write_off_step(values@, liabs_val, reduction_val),
            written_off(old(mango_group)@, old(margin_account)@, prices@, open_orders@)
                == run_steps(start, step, NUM_TOKENS as nat),
            run_steps(start, step, i as nat) == Ok::<Ledger, MangoError>(
                (mango_group@, margin_account@),
            ),
        decreases NUM_TOKENS - i,
    {
        let done = match values[i].checked_div(liabs_val) {
            Some(proportion) => match proportion.checked_mul(reduction_val) {
                Some(token_reduce) => socialize_loss(mango_group, margin_account, i, token_reduce),
                None => Err(MangoError::Arithmetic),
            },
            None => Err(MangoError::Arithmetic),
        };
        if let Err(e) = done {
            proof {
                lemma_run_steps_error_stays(start, step, (i + 1) as nat, NUM_TOKENS as nat);
            }
            return Err(e);
        }
        i += 1;
    }
    Ok(())
}

/// Credits the liquidator's deposits to the account.
fn pull_deposits(
    mango_group: &mut MangoGroup,
    margin_account: &mut MarginAccount,
    vaults: &[Address; NUM_TOKENS],
    deposit_quantities: &[u64; NUM_TOKENS],
) -> (r: MangoResult<()>)
    ensures
        match deposits_pulled(
            old(mango_group)@,
            old(margin_account)@,
            vaults@,
            deposit_quantities@,
        ) {
            Ok((g, a)) => r is Ok && final(mango_group)@ == g && final(margin_account)@ == a,
            Err(e) => r == Err::<(), MangoError>(e),
        },
{
    let ghost start = (mango_group@, margin_account@);
    let ghost step = pull_step(vaults@, deposit_quantities@);
    let mut i: usize = 0;
    while i < NUM_TOKENS
        invariant
            i <= NUM_TOKENS,
            step == pull_step(vaults@, deposit_quantities@),
            start == (old(mango_group)@, old(margin_account)@),
            run_steps(start, step, i as nat) == Ok::<Ledger, MangoError>(
                (mango_group@, margin_account@),
            ),
        decreases NUM_TOKENS - i,
    {
        let quantity: u64 = deposit_quantities[i];
        if quantity != 0 {
            let done = if mango_group.vaults[i] != vaults[i] {
                Err(MangoError::ReferenceMismatch)
            } else {
                receive(mango_group, margin_account, i, quantity)
            };
            if let Err(e) = done {
                proof {
                    lemma_run_steps_error_stays(start, step, (i + 1) as nat, NUM_TOKENS as nat);
                }
                return Err(e);
            }
        }
        i += 1;
    }
    Ok(())
}

/// What happens to an account that may be liquidated.
fn seize(
    mango_group: &mut MangoGroup,
    margin_account: &mut MarginAccount,
    prices: &[U64F64; NUM_TOKENS],
    open_orders: &[OpenOrders; NUM_MARKETS],
    enough: U64F64,
    liqor: &Address,
    vaults: &[Address; NUM_TOKENS],
    deposit_quantities: &[u64; NUM_TOKENS],
) -> (r: MangoResult<LiquidationOutcome>)
    ensures
        match seized(
            old(mango_group)@,
            old(margin_account)@,
            prices@,
            open_orders@,
            enough,
            *liqor,
            vaults@,
            deposit_quantities@,
        ) {
            Ok((g, a, outcome)) => r == Ok::<LiquidationOutcome, MangoError>(outcome) && final(mango_group)@ == g && final(margin_account)@ == a,
            Err(e) => r == Err::<LiquidationOutcome, MangoError>(e),
        },
        r is Ok ==> forall|i: int| 0 <= i < NUM_TOKENS ==> final(mango_group)@.solvent(i),
{
    settle_all(mango_group, margin_account)?;
    let coll_ratio = margin_account.get_collateral_ratio(mango_group, prices, open_orders)?;
    if coll_ratio.bits >= enough.bits {
        check_solvency(mango_group)?;
        return Ok(LiquidationOutcome::Settled);
    }
    if coll_ratio.bits < SCALE {
        write_off(mango_group, margin_account, prices, open_orders)?;
    }
    pull_deposits(mango_group, margin_account, vaults, deposit_quantities)?;
    let coll_ratio = margin_account.get_collateral_ratio(mango_group, prices, open_orders)?;
    if coll_ratio.bits < mango_group.init_coll_ratio.bits {
        return Err(MangoError::InsufficientCollateral);
    }
    check_solvency(mango_group)?;
    margin_account.owner = *liqor;
    Ok(LiquidationOutcome::Liquidated)
}

impl Processor {
    /// Liquidates an account that is below the maintenance ratio. Fails,
    /// and changes nothing, for an account that is at or above it.
    ///
    /// On `Liquidated` the caller moves each of `deposit_quantities` from
    /// the liquidator into the asset's vault.
    pub fn liquidate(
        mango_group: &mut MangoGroup,
        liqee_margin_account: &mut MarginAccount,
        now: u64,
        liqor: &Signer,
        open_orders: &[OpenOrders; NUM_MARKETS],
        oracles: &[OracleFeed; NUM_MARKETS],
        vaults: &[Address; NUM_TOKENS],
        deposit_quantities: &[u64; NUM_TOKENS],
    ) -> (r: MangoResult<LiquidationOutcome>)
        ensures
            match liquidated(
                old(mango_group)@,
                old(liqee_margin_account)@,
                now,
                *liqor,
                open_orders@,
                oracles@,
                vaults@,
                deposit_quantities@,
            ) {
                Ok((g, a, outcome)) => r == Ok::<LiquidationOutcome, MangoError>(outcome) && final(mango_group)@ == g && final(liqee_margin_account)@ == a,
                Err(e) => r == Err::<LiquidationOutcome, MangoError>(e) && *final(mango_group)
                    == *old(mango_group) && *final(liqee_margin_account) == *old(liqee_margin_account),
            },
            entry_ratio(
                old(mango_group)@,
                old(liqee_margin_account)@,
                now,
                oracles@,
                open_orders@,
            ) is Some && entry_ratio(
                old(mango_group)@,
                old(liqee_margin_account)@,
                now,
                oracles@,
                open_orders@,
            )->0.bits >= old(mango_group)@.maint_coll_ratio.bits ==> r is Err && *final(mango_group) == *old(mango_group) && *final(liqee_margin_account) == *old(liqee_margin_account),
            r is Ok ==> forall|i: int| 0 <= i < NUM_TOKENS ==> final(mango_group)@.solvent(i),
    {
        proof {
            if old(mango_group)@.refresh(now) is Ok {
                lemma_refresh_frame(old(mango_group)@, now, NUM_TOKENS as nat);
            }
        }
        if !liqor.is_signer {
            return Err(MangoError::MissingSignature);
        }
        let mut group = *mango_group;
        let mut account = *liqee_margin_account;
        group.update_indexes(now)?;
        check_open_orders_bound(&account, &group, open_orders)?;
        let prices = get_prices(&group, oracles)?;
        let coll_ratio = account.get_collateral_ratio(&group, &prices, open_orders)?;
        if coll_ratio.bits >= group.maint_coll_ratio.bits {
            return Err(MangoError::NotLiquidatable);
        }
        let enough = group.maint_coll_ratio;
        let outcome = seize(
            &mut group,
            &mut account,
            &prices,
            open_orders,
            enough,
            &liqor.key,
            vaults,
            deposit_quantities,
        )?;
        *mango_group = group;
        *liqee_margin_account = account;
        Ok(outcome)
    }

    /// Liquidates an account whose resting orders the caller has cancelled,
    /// so that nothing is locked in orders any more, and whose freed
    /// balances the caller has settled into the vaults.
    /// The freed balances are booked as deposits and the account's borrows
    /// are paid back out of its deposits; the liquidation stops there,
    /// with `Settled`, as soon as that restores the initial ratio. Fails,
    /// and changes nothing, for an account that was at or above the
    /// maintenance ratio before its orders were cancelled.
    ///
    /// On `Liquidated` the caller moves each of `deposit_quantities` from
    /// the liquidator into the asset's vault.
    pub fn partial_liquidate(
        mango_group: &mut MangoGroup,
        liqee_margin_account: &mut MarginAccount,
        now: u64,
        liqor: &Signer,
        open_orders_before: &[OpenOrders; NUM_MARKETS],
        open_orders_cancelled: &[OpenOrders; NUM_MARKETS],
        open_orders_after: &[OpenOrders; NUM_MARKETS],
        oracles: &[OracleFeed; NUM_MARKETS],
        vaults: &[Address; NUM_TOKENS],
        deposit_quantities: &[u64; NUM_TOKENS],
    ) -> (r: MangoResult<LiquidationOutcome>)
        ensures
            match partially_liquidated(
                old(mango_group)@,
                old(liqee_margin_account)@,
                now,
                *liqor,
                open_orders_before@,
                open_orders_cancelled@,
                open_orders_after@,
                oracles@,
                vaults@,
                deposit_quantities@,
            ) {
                Ok((g, a, outcome)) => r == Ok::<LiquidationOutcome, MangoError>(outcome) && final(mango_group)@ == g && final(liqee_margin_account)@ == a,
                Err(e) => r == Err::<LiquidationOutcome, MangoError>(e) && *final(mango_group)
                    == *old(mango_group) && *final(liqee_margin_account) == *old(liqee_margin_account),
            },
            entry_ratio(
                old(mango_group)@,
                old(liqee_margin_account)@,
                now,
                oracles@,
                open_orders_before@,
            ) is Some && entry_ratio(
                old(mango_group)@,
                old(liqee_margin_account)@,
                now,
                oracles@,
                open_orders_before@,
            )->0.bits >= old(mango_group)@.maint_coll_ratio.bits ==> r is Err && *final(mango_group) == *old(mango_group) && *final(liqee_margin_account) == *old(liqee_margin_account),
            r is Ok ==> forall|i: int| 0 <= i < NUM_TOKENS ==> final(mango_group)@.solvent(i),
    {
        proof {
            if old(mango_group)@.refresh(now) is Ok {
                lemma_refresh_frame(old(mango_group)@, now, NUM_TOKENS as nat);
            }
        }
        if !liqor.is_signer {
            return Err(MangoError::MissingSignature);
        }
        let mut group = *mango_group;
        let mut account = *liqee_margin_account;
        group.update_indexes(now)?;
        check_open_orders_bound(&account, &group, open_orders_before)?;
        if !same_records(open_orders_before, open_orders_cancelled) || !same_records(
            open_orders_before,
            open_orders_after,
        ) {
            return Err(MangoError::ReferenceMismatch);
        }
        if !all_unlocked(open_orders_cancelled) {
            return Err(MangoError::OrdersResting);
        }
        let prices = get_prices(&group, oracles)?;
        let coll_ratio = account.get_collateral_ratio(&group, &prices, open_orders_before)?;
        if coll_ratio.bits >= group.maint_coll_ratio.bits {
            return Err(MangoError::NotLiquidatable);
        }
        release_all(&mut group, &mut account, open_orders_cancelled, open_orders_after)?;
        let enough = group.init_coll_ratio;
        let outcome = seize(
            &mut group,
            &mut account,
            &prices,
            open_orders_after,
            enough,
            &liqor.key,
            vaults,
            deposit_quantities,
        )?;
        *mango_group = group;
        *liqee_margin_account = account;
        Ok(outcome)
    }
}

} // verus!
