use vstd::prelude::*;
use crate::error::{MangoError, MangoResult};
use crate::fixed_point::U64F64;
use crate::state::{AccountState, GroupState, MangoGroup, MangoIndex, MarginAccount, NUM_TOKENS};

verus! {

/// The ledger with `quantity` shares more on the account's deposit of asset
/// `i` and on the group's total of it.
pub open spec fn add_deposit(g: GroupState, a: AccountState, i: int, quantity: U64F64) -> Option<
    (GroupState, AccountState),
> {
    match (a.deposits[i].sum(quantity), g.total_deposits[i].sum(quantity)) {
        (Some(own), Some(all)) => Some(
            (
                GroupState { total_deposits: g.total_deposits.update(i, all), ..g },
                AccountState { deposits: a.deposits.update(i, own), ..a },
            ),
        ),
        _ => None,
    }
}

/// The ledger with `quantity` shares less on the account's deposit of asset
/// `i` and on the group's total of it.
pub open spec fn sub_deposit(g: GroupState, a: AccountState, i: int, quantity: U64F64) -> Option<
    (GroupState, AccountState),
> {
    match (a.deposits[i].diff(quantity), g.total_deposits[i].diff(quantity)) {
        (Some(own), Some(all)) => Some(
            (
                GroupState { total_deposits: g.total_deposits.update(i, all), ..g },
                AccountState { deposits: a.deposits.update(i, own), ..a },
            ),
        ),
        _ => None,
    }
}

/// The ledger with `quantity` shares more on the account's borrow of asset
/// `i` and on the group's total of it.
pub open spec fn add_borrow(g: GroupState, a: AccountState, i: int, quantity: U64F64) -> Option<
    (GroupState, AccountState),
> {
    match (a.borrows[i].sum(quantity), g.total_borrows[i].sum(quantity)) {
        (Some(own), Some(all)) => Some(
            (
                GroupState { total_borrows: g.total_borrows.update(i, all), ..g },
                AccountState { borrows: a.borrows.update(i, own), ..a },
            ),
        ),
        _ => None,
    }
}

/// The ledger with `quantity` shares less on the account's borrow of asset
/// `i` and on the group's total of it.
pub open spec fn sub_borrow(g: GroupState, a: AccountState, i: int, quantity: U64F64) -> Option<
    (GroupState, AccountState),
> {
    match (a.borrows[i].diff(quantity), g.total_borrows[i].diff(quantity)) {
        (Some(own), Some(all)) => Some(
            (
                GroupState { total_borrows: g.total_borrows.update(i, all), ..g },
                AccountState { borrows: a.borrows.update(i, own), ..a },
            ),
        ),
        _ => None,
    }
}

/// The smallest of three amounts.
pub open spec fn min3(x: u64, y: u64, z: u64) -> u64 {
    if x <= y && x <= z {
        x
    } else if y <= z {
        y
    } else {
        z
    }
}

/// The ledger after the account has paid back its borrow of asset `i` out
/// of its own deposit of it: as much as asked for, but no more than it owes
/// and no more than it has, in whole native units.
pub open spec fn settled(g: GroupState, a: AccountState, i: int, quantity: u64) -> Option<
    (GroupState, AccountState),
> {
    let index = g.indexes[i];
    match (a.native_borrow(index, i), a.native_deposit(index, i)) {
        (Some(owed), Some(owned)) => {
            let paid = U64F64::of_int(min3(quantity, owed, owned));
            match (paid.quot(index.borrow), paid.quot(index.deposit)) {
                (Some(borrow_shares), Some(deposit_shares)) => match sub_deposit(
                    g,
                    a,
                    i,
                    deposit_shares,
                ) {
                    Some((g1, a1)) => sub_borrow(g1, a1, i, borrow_shares),
                    None => None,
                },
                _ => None,
            }
        },
        _ => None,
    }
}

/// The ledger after `loss` native units of the account's borrow of asset
/// `i` have been written off: the borrow shrinks by that amount, and the
/// asset's deposit index shrinks by the fraction that the loss is of the
/// asset's native deposits, which spreads it over every depositor.
pub open spec fn socialized(g: GroupState, a: AccountState, i: int, loss: U64F64) -> Option<
    (GroupState, AccountState),
> {
    let index = g.indexes[i];
    match loss.quot(index.borrow) {
        Some(shares) => match sub_borrow(g, a, i, shares) {
            Some((g1, a1)) => match g1.native_deposits(i) {
                Some(pool) => match loss.quot(pool) {
                    Some(fraction) => match fraction.prod(index.deposit) {
                        Some(cut) => match index.deposit.diff(cut) {
                            Some(deposit) => Some(
                                (
                                    GroupState {
                                        indexes: g1.indexes.update(
                                            i,
                                            MangoIndex { deposit, ..index },
                                        ),
                                        ..g1
                                    },
                                    a1,
                                ),
                            ),
                            None => None,
                        },
                        None => None,
                    },
                    None => None,
                },
                None => None,
            },
            None => None,
        },
        None => None,
    }
}

/// Takes `quantity` shares off the account's deposit of an asset and off
/// the group's total of it, both or neither.
pub fn checked_sub_deposit(
    mango_group: &mut MangoGroup,
    margin_account: &mut MarginAccount,
    token_index: usize,
    quantity: U64F64,
) -> (r: MangoResult<()>)
    requires
        token_index < NUM_TOKENS,
    ensures
        match sub_deposit(old(mango_group)@, old(margin_account)@, token_index as int, quantity) {
            Some((g, a)) => r is Ok && final(mango_group)@ == g && final(margin_account)@ == a,
            None => r == Err::<(), MangoError>(MangoError::Arithmetic) && *final(mango_group)
                == *old(mango_group) && *final(margin_account) == *old(margin_account),
        },
{
    let own = margin_account.deposits[token_index].checked_sub(quantity);
    let all = mango_group.total_deposits[token_index].checked_sub(quantity);
    match (own, all) {
        (Some(own), Some(all)) => {
            margin_account.deposits[token_index] = own;
            mango_group.total_deposits[token_index] = all;
            Ok(())
        },
        _ => Err(MangoError::Arithmetic),
    }
}

/// Takes `quantity` shares off the account's borrow of an asset and off
/// the group's total of it, both or neither.
pub fn checked_sub_borrow(
    mango_group: &mut MangoGroup,
    margin_account: &mut MarginAccount,
    token_index: usize,
    quantity: U64F64,
) -> (r: MangoResult<()>)
    requires
        token_index < NUM_TOKENS,
    ensures
        match sub_borrow(old(mango_group)@, old(margin_account)@, token_index as int, quantity) {
            Some((g, a)) => r is Ok && final(mango_group)@ == g && final(margin_account)@ == a,
            None => r == Err::<(), MangoError>(MangoError::Arithmetic) && *final(mango_group)
                == *old(mango_group) && *final(margin_account) == *old(margin_account),
        },
{
    let own = margin_account.borrows[token_index].checked_sub(quantity);
    let all = mango_group.total_borrows[token_index].checked_sub(quantity);
    match (own, all) {
        (Some(own), Some(all)) => {
            margin_account.borrows[token_index] = own;
            mango_group.total_borrows[token_index] = all;
            Ok(())
        },
        _ => Err(MangoError::Arithmetic),
    }
}

/// Adds `quantity` shares to the account's deposit of an asset and to the
/// group's total of it, both or neither.
pub fn checked_add_deposit(
    mango_group: &mut MangoGroup,
    margin_account: &mut MarginAccount,
    token_index: usize,
    quantity: U64F64,
) -> (r: MangoResult<()>)
    requires
        token_index < NUM_TOKENS,
    ensures
        match add_deposit(old(mango_group)@, old(margin_account)@, token_index as int, quantity) {
            Some((g, a)) => r is Ok && final(mango_group)@ == g && final(margin_account)@ == a,
            None => r == Err::<(), MangoError>(MangoError::Arithmetic) && *final(mango_group)
                == *old(mango_group) && *final(margin_account) == *old(margin_account),
        },
{
    let own = margin_account.deposits[token_index].checked_add(quantity);
    let all = mango_group.total_deposits[token_index].checked_add(quantity);
    match (own, all) {
        (Some(own), Some(all)) => {
            margin_account.deposits[token_index] = own;
            mango_group.total_deposits[token_index] = all;
            Ok(())
        },
        _ => Err(MangoError::Arithmetic),
    }
}

/// Adds `quantity` shares to the account's borrow of an asset and to the
/// group's total of it, both or neither.
pub fn checked_add_borrow(
    mango_group: &mut MangoGroup,
    margin_account: &mut MarginAccount,
    token_index: usize,
    quantity: U64F64,
) -> (r: MangoResult<()>)
    requires
        token_index < NUM_TOKENS,
    ensures
        match add_borrow(old(mango_group)@, old(margin_account)@, token_index as int, quantity) {
            Some((g, a)) => r is Ok && final(mango_group)@ == g && final(margin_account)@ == a,
            None => r == Err::<(), MangoError>(MangoError::Arithmetic) && *final(mango_group)
                == *old(mango_group) && *final(margin_account) == *old(margin_account),
        },
{
    let own = margin_account.borrows[token_index].checked_add(quantity);
    let all = mango_group.total_borrows[token_index].checked_add(quantity);
    match (own, all) {
        (Some(own), Some(all)) => {
            margin_account.borrows[token_index] = own;
            mango_group.total_borrows[token_index] = all;
            Ok(())
        },
        _ => Err(MangoError::Arithmetic),
    }
}

/// Pays back the account's borrow of an asset out of its own deposit of it,
/// up to `quantity` native units. The collateral ratio needs no check: what
/// the account owns and what it owes fall by the same amount.
pub fn settle_borrow_unchecked(
    mango_group: &mut MangoGroup,
    margin_account: &mut MarginAccount,
    token_index: usize,
    quantity: u64,
) -> (r: MangoResult<()>)
    requires
        token_index < NUM_TOKENS,
    ensures
        match settled(old(mango_group)@, old(margin_account)@, token_index as int, quantity) {
            Some((g, a)) => r is Ok && final(mango_group)@ == g && final(margin_account)@ == a,
            None => r == Err::<(), MangoError>(MangoError::Arithmetic) && *final(mango_group)
                == *old(mango_group) && *final(margin_account) == *old(margin_account),
        },
{
    let index = mango_group.indexes[token_index];
    let native_borrow: u64 = margin_account.get_native_borrow(&index, token_index)?;
    let native_deposit: u64 = margin_account.get_native_deposit(&index, token_index)?;
    let mut quantity: u64 = quantity;
    if native_borrow < quantity {
        quantity = native_borrow;
    }
    if native_deposit < quantity {
        quantity = native_deposit;
    }
    let paid = U64F64::from_num(quantity);
    let borr_settle = match paid.checked_div(index.borrow) {
        Some(v) => v,
        None => { return Err(MangoError::Arithmetic); },
    };
    let dep_settle = match paid.checked_div(index.deposit) {
        Some(v) => v,
        None => { return Err(MangoError::Arithmetic); },
    };
    let mut group = *mango_group;
    let mut account = *margin_account;
    checked_sub_deposit(&mut group, &mut account, token_index, dep_settle)?;
    checked_sub_borrow(&mut group, &mut account, token_index, borr_settle)?;
    *mango_group = group;
    *margin_account = account;
    Ok(())
}

/// Pays back as much of the account's borrow of an asset as its own deposit
/// of it covers.
pub fn settle_borrow_full_unchecked(
    mango_group: &mut MangoGroup,
    margin_account: &mut MarginAccount,
    token_index: usize,
) -> (r: MangoResult<()>)
    requires
        token_index < NUM_TOKENS,
    ensures
        match settled(old(mango_group)@, old(margin_account)@, token_index as int, u64::MAX) {
            Some((g, a)) => r is Ok && final(mango_group)@ == g && final(margin_account)@ == a,
            None => r == Err::<(), MangoError>(MangoError::Arithmetic) && *final(mango_group)
                == *old(mango_group) && *final(margin_account) == *old(margin_account),
        },
{
    settle_borrow_unchecked(mango_group, margin_account, token_index, u64::MAX)
}

/// Writes off `reduce_quantity_native` native units of the account's borrow
/// of an asset and spreads the loss over the asset's depositors by
/// shrinking its deposit index.
pub fn socialize_loss(
    mango_group: &mut MangoGroup,
    margin_account: &mut MarginAccount,
    token_index: usize,
    reduce_quantity_native: U64F64,
) -> (r: MangoResult<()>)
    requires
        token_index < NUM_TOKENS,
    ensures
        match socialized(
            old(mango_group)@,
            old(margin_account)@,
            token_index as int,
            reduce_quantity_native,
        ) {
            Some((g, a)) => r is Ok && final(mango_group)@ == g && final(margin_account)@ == a,
            None => r == Err::<(), MangoError>(MangoError::Arithmetic) && *final(mango_group)
                == *old(mango_group) && *final(margin_account) == *old(margin_account),
        },
{
    let index = mango_group.indexes[token_index];
    let quantity = match reduce_quantity_native.checked_div(index.borrow) {
        Some(v) => v,
        None => { return Err(MangoError::Arithmetic); },
    };
    let mut group = *mango_group;
    let mut account = *margin_account;
    checked_sub_borrow(&mut group, &mut account, token_index, quantity)?;
    let total_deposits = match group.total_deposits[token_index].checked_mul(index.deposit) {
        Some(v) => v,
        None => { return Err(MangoError::Arithmetic); },
    };
    let percentage_loss = match reduce_quantity_native.checked_div(total_deposits) {
        Some(v) => v,
        None => { return Err(MangoError::Arithmetic); },
    };
    let cut = match percentage_loss.checked_mul(index.deposit) {
        Some(v) => v,
        None => { return Err(MangoError::Arithmetic); },
    };
    let deposit = match index.deposit.checked_sub(cut) {
        Some(v) => v,
        None => { return Err(MangoError::Arithmetic); },
    };
    group.indexes[token_index] = MangoIndex { deposit, ..index };
    *mango_group = group;
    *margin_account = account;
    Ok(())
}

} // verus!
