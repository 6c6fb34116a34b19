use vstd::prelude::*;
use crate::error::{or_arithmetic, MangoError, MangoResult};
use crate::fixed_point::U64F64;
use crate::state::{
    AccountState, Address, GroupState, MangoGroup, MangoIndex, MarginAccount, OpenOrders,
    NUM_MARKETS, NUM_TOKENS,
};

verus! {

/// The sum of the bit patterns of the first `n` terms.
pub open spec fn bits_sum(terms: Seq<Option<U64F64>>, n: int) -> int
    decreases n,
{
    if n <= 0 {
        0
    } else {
        bits_sum(terms, n - 1) + match terms[n - 1] {
            Some(v) => v.bits as int,
            None => 0,
        }
    }
}

/// The sum of the terms, where each of them is defined and the sum is
/// representable.
pub open spec fn total(terms: Seq<Option<U64F64>>) -> Option<U64F64> {
    if (forall|i: int| 0 <= i < terms.len() ==> (#[trigger] terms[i]) is Some) && bits_sum(
        terms,
        terms.len() as int,
    ) <= u128::MAX {
        Some(U64F64 { bits: bits_sum(terms, terms.len() as int) as u128 })
    } else {
        None
    }
}

/// A longer sum is not smaller.
pub proof fn lemma_bits_sum_grows(terms: Seq<Option<U64F64>>, n: int, m: int)
    requires
        n <= m,
    ensures
        bits_sum(terms, n) <= bits_sum(terms, m),
        0 <= bits_sum(terms, n),
    decreases m - n, m,
{
    if n < m {
        lemma_bits_sum_grows(terms, n, m - 1);
    } else if n > 0 {
        lemma_bits_sum_grows(terms, n - 1, n - 1);
    }
}

/// What the balances resting on the venue are worth: the base balance at the
/// base asset's price plus the quote balance. A record that is not set is
/// worth nothing.
pub open spec fn open_orders_value(open_orders: OpenOrders, price: U64F64) -> Option<U64F64> {
    if open_orders.key == Address::unset() {
        Some(U64F64 { bits: 0 })
    } else {
        match U64F64::of_int(open_orders.native_coin_total).prod(price) {
            Some(v) => v.sum(U64F64::of_int(open_orders.native_pc_total)),
            None => None,
        }
    }
}

/// The quote balances that rest on the first `n` markets, in native units.
pub open spec fn resting_quote(open_orders: Seq<OpenOrders>, n: int) -> int
    decreases n,
{
    if n <= 0 {
        0
    } else {
        resting_quote(open_orders, n - 1) + if open_orders[n - 1].key == Address::unset() {
            0
        } else {
            open_orders[n - 1].native_pc_total as int
        }
    }
}

/// More markets do not hold less.
pub proof fn lemma_resting_quote_grows(open_orders: Seq<OpenOrders>, n: int, m: int)
    requires
        n <= m,
    ensures
        resting_quote(open_orders, n) <= resting_quote(open_orders, m),
        0 <= resting_quote(open_orders, n),
    decreases m - n, m,
{
    if n < m {
        lemma_resting_quote_grows(open_orders, n, m - 1);
    } else if n > 0 {
        lemma_resting_quote_grows(open_orders, n - 1, n - 1);
    }
}

impl AccountState {
    /// The account's borrow of the asset in whole native units, rounded down.
    pub open spec fn native_borrow(self, index: MangoIndex, i: int) -> Option<u64> {
        match self.borrows[i].prod(index.borrow) {
            Some(v) => Some(v.int_part()),
            None => None,
        }
    }

    /// The account's deposit of the asset in whole native units, rounded down.
    pub open spec fn native_deposit(self, index: MangoIndex, i: int) -> Option<u64> {
        match self.deposits[i].prod(index.deposit) {
            Some(v) => Some(v.int_part()),
            None => None,
        }
    }

    /// The account's borrow of every asset in whole native units.
    pub open spec fn native_liabs(self, g: GroupState) -> Option<Seq<u64>> {
        if forall|i: int|
            0 <= i < NUM_TOKENS ==> (#[trigger] self.native_borrow(g.indexes[i], i)) is Some {
            Some(Seq::new(NUM_TOKENS as nat, |i: int| self.native_borrow(g.indexes[i], i)->0))
        } else {
            None
        }
    }

    /// What the account owns of asset `i` in whole native units: its
    /// deposit, and what rests on the venue, which for a base asset is the
    /// base balance on its market and for the quote currency the quote
    /// balances on all markets.
    pub open spec fn asset_amount(self, g: GroupState, open_orders: Seq<OpenOrders>, i: int)
        -> Option<int> {
        match self.native_deposit(g.indexes[i], i) {
            Some(deposit) => Some(
                deposit + if i < NUM_MARKETS {
                    if open_orders[i].key == Address::unset() {
                        0
                    } else {
                        open_orders[i].native_coin_total as int
                    }
                } else {
                    resting_quote(open_orders, NUM_MARKETS as int)
                },
            ),
            None => None,
        }
    }

    /// What the account owns of every asset, where each amount fits in 64 bits.
    pub open spec fn total_assets(self, g: GroupState, open_orders: Seq<OpenOrders>) -> Option<
        Seq<u64>,
    > {
        if forall|i: int|
            0 <= i < NUM_TOKENS ==> (#[trigger] self.asset_amount(g, open_orders, i)) is Some
                && self.asset_amount(g, open_orders, i)->0 <= u64::MAX {
            Some(
                Seq::new(
                    NUM_TOKENS as nat,
                    |i: int| self.asset_amount(g, open_orders, i)->0 as u64,
                ),
            )
        } else {
            None
        }
    }

    /// The value of the account's deposit of the asset.
    pub open spec fn deposit_value(self, g: GroupState, prices: Seq<U64F64>, i: int) -> Option<
        U64F64,
    > {
        match g.indexes[i].deposit.prod(self.deposits[i]) {
            Some(native) => native.prod(prices[i]),
            None => None,
        }
    }

    /// The value of the account's borrow of the asset.
    pub open spec fn borrow_value(self, g: GroupState, prices: Seq<U64F64>, i: int) -> Option<
        U64F64,
    > {
        match g.indexes[i].borrow.prod(self.borrows[i]) {
            Some(native) => native.prod(prices[i]),
            None => None,
        }
    }

    /// The value of the account's borrow of every asset. It is meant for an
    /// account whose borrow values are all defined.
    pub open spec fn borrow_values(self, g: GroupState, prices: Seq<U64F64>) -> Seq<U64F64> {
        Seq::new(NUM_TOKENS as nat, |k: int| self.borrow_value(g, prices, k)->0)
    }

    /// What the account owns, item by item: first what rests on each market,
    /// then its deposit of each asset.
    pub open spec fn asset_terms(
        self,
        g: GroupState,
        prices: Seq<U64F64>,
        open_orders: Seq<OpenOrders>,
    ) -> Seq<Option<U64F64>> {
        Seq::new(
            (NUM_MARKETS + NUM_TOKENS) as nat,
            |k: int|
                if k < NUM_MARKETS {
                    open_orders_value(open_orders[k], prices[k])
                } else {
                    self.deposit_value(g, prices, k - NUM_MARKETS)
                },
        )
    }

    /// What the account owes, asset by asset.
    pub open spec fn liability_terms(self, g: GroupState, prices: Seq<U64F64>) -> Seq<
        Option<U64F64>,
    > {
        Seq::new(NUM_TOKENS as nat, |k: int| self.borrow_value(g, prices, k))
    }

    /// The value of all the account owns, in the quote currency.
    pub open spec fn assets_value(
        self,
        g: GroupState,
        prices: Seq<U64F64>,
        open_orders: Seq<OpenOrders>,
    ) -> Option<U64F64> {
        total(self.asset_terms(g, prices, open_orders))
    }

    /// The value of all the account owes, in the quote currency.
    pub open spec fn liabs_value(self, g: GroupState, prices: Seq<U64F64>) -> Option<U64F64> {
        total(self.liability_terms(g, prices))
    }

    /// Assets over liabilities; the largest number for an account that owes
    /// nothing.
    pub open spec fn collateral_ratio(
        self,
        g: GroupState,
        prices: Seq<U64F64>,
        open_orders: Seq<OpenOrders>,
    ) -> Option<U64F64> {
        match (self.assets_value(g, prices, open_orders), self.liabs_value(g, prices)) {
            (Some(assets), Some(liabs)) => if liabs.bits == 0 {
                Some(U64F64 { bits: u128::MAX })
            } else {
                assets.quot(liabs)
            },
            _ => None,
        }
    }

    /// Assets less liabilities, and zero where the account owes more than it owns.
    pub open spec fn equity(
        self,
        g: GroupState,
        prices: Seq<U64F64>,
        open_orders: Seq<OpenOrders>,
    ) -> Option<U64F64> {
        match (self.assets_value(g, prices, open_orders), self.liabs_value(g, prices)) {
            (Some(assets), Some(liabs)) => if liabs.bits > assets.bits {
                Some(U64F64 { bits: 0 })
            } else {
                assets.diff(liabs)
            },
            _ => None,
        }
    }

    /// The whole quote units that are missing for the assets to reach the
    /// initial ratio times the liabilities.
    pub open spec fn collateral_deficit(
        self,
        g: GroupState,
        prices: Seq<U64F64>,
        open_orders: Seq<OpenOrders>,
    ) -> Option<u64> {
        match (self.assets_value(g, prices, open_orders), self.liabs_value(g, prices)) {
            (Some(assets), Some(liabs)) => if liabs.bits == 0 {
                Some(0)
            } else {
                match liabs.prod(g.init_coll_ratio) {
                    Some(needed) => if assets.bits >= needed.bits {
                        Some(0)
                    } else {
                        Some(needed.diff(assets)->0.int_part())
                    },
                    None => None,
                }
            },
            _ => None,
        }
    }
}

impl MarginAccount {
    /// What the account owes of an asset, in whole native units at `index`.
    pub fn get_native_borrow(&self, index: &MangoIndex, token_i: usize) -> (r: MangoResult<u64>)
        requires
            token_i < NUM_TOKENS,
        ensures
            r == or_arithmetic(self@.native_borrow(*index, token_i as int)),
    {
        match self.borrows[token_i].checked_mul(index.borrow) {
            Some(v) => Ok(v.to_num()),
            None => Err(MangoError::Arithmetic),
        }
    }

    /// What the account has deposited of an asset, in whole native units at
    /// `index`.
    pub fn get_native_deposit(&self, index: &MangoIndex, token_i: usize) -> (r: MangoResult<u64>)
        requires
            token_i < NUM_TOKENS,
        ensures
            r == or_arithmetic(self@.native_deposit(*index, token_i as int)),
    {
        match self.deposits[token_i].checked_mul(index.deposit) {
            Some(v) => Ok(v.to_num()),
            None => Err(MangoError::Arithmetic),
        }
    }

    /// The value of what rests on one market.
    fn open_orders_val(open_orders: &OpenOrders, price: U64F64) -> (r: Option<U64F64>)
        ensures
            r == open_orders_value(*open_orders, price),
    {
        if open_orders.key.is_unset() {
            return Some(U64F64::zero());
        }
        match U64F64::from_num(open_orders.native_coin_total).checked_mul(price) {
            Some(v) => v.checked_add(U64F64::from_num(open_orders.native_pc_total)),
            None => None,
        }
    }

    /// The value of the account's deposits and of what it has resting on the
    /// venue, in the quote currency.
    pub fn get_assets_val(
        &self,
        mango_group: &MangoGroup,
        prices: &[U64F64; NUM_TOKENS],
        open_orders: &[OpenOrders; NUM_MARKETS],
    ) -> (r: MangoResult<U64F64>)
        ensures
            r == or_arithmetic(self@.assets_value(mango_group@, prices@, open_orders@)),
    {
        let ghost terms = self@.asset_terms(mango_group@, prices@, open_orders@);
        let mut assets = U64F64::zero();
        let mut i: usize = 0;
        while i < NUM_MARKETS
            invariant
                i <= NUM_MARKETS,
                terms == self@.asset_terms(mango_group@, prices@, open_orders@),
                assets.bits == bits_sum(terms, i as int),
                forall|j: int| 0 <= j < i ==> (#[trigger] terms[j]) is Some,
            decreases NUM_MARKETS - i,
        {
            let term = match Self::open_orders_val(&open_orders[i], prices[i]) {
                Some(v) => v,
                None => {
                    assert(terms[i as int] is None);
                    return Err(MangoError::Arithmetic);
                },
            };
            assets = match term.checked_add(assets) {
                Some(v) => v,
                None => {
                    proof {
                        lemma_bits_sum_grows(terms, i + 1, terms.len() as int);
                    }
                    return Err(MangoError::Arithmetic);
                },
            };
            i += 1;
        }
        let mut i: usize = 0;
        while i < NUM_TOKENS
            invariant
                i <= NUM_TOKENS,
                terms == self@.asset_terms(mango_group@, prices@, open_orders@),
                assets.bits == bits_sum(terms, NUM_MARKETS + i),
                forall|j: int| 0 <= j < NUM_MARKETS + i ==> (#[trigger] terms[j]) is Some,
            decreases NUM_TOKENS - i,
        {
            let index = mango_group.indexes[i];
            let value = match index.deposit.checked_mul(self.deposits[i]) {
                Some(native_deposits) => native_deposits.checked_mul(prices[i]),
                None => None,
            };
            assert(terms[NUM_MARKETS + i] == value);
            let term = match value {
                Some(v) => v,
                None => { return Err(MangoError::Arithmetic); },
            };
            assets = match term.checked_add(assets) {
                Some(v) => v,
                None => {
                    proof {
                        lemma_bits_sum_grows(terms, NUM_MARKETS + i + 1, terms.len() as int);
                    }
                    return Err(MangoError::Arithmetic);
                },
            };
            i += 1;
        }
        Ok(assets)
    }

    /// The value of the account's borrow of one asset, in the quote currency.
    pub fn get_borrow_val(
        &self,
        mango_group: &MangoGroup,
        prices: &[U64F64; NUM_TOKENS],
        token_i: usize,
    ) -> (r: MangoResult<U64F64>)
        requires
            token_i < NUM_TOKENS,
        ensures
            r == or_arithmetic(self@.borrow_value(mango_group@, prices@, token_i as int)),
    {
        match mango_group.indexes[token_i].borrow.checked_mul(self.borrows[token_i]) {
            Some(native_borrows) => match native_borrows.checked_mul(prices[token_i]) {
                Some(value) => Ok(value),
                None => Err(MangoError::Arithmetic),
            },
            None => Err(MangoError::Arithmetic),
        }
    }

    /// The value of the account's borrows, in the quote currency.
    pub fn get_liabs_val(&self, mango_group: &MangoGroup, prices: &[U64F64; NUM_TOKENS]) -> (r:
        MangoResult<U64F64>)
        ensures
            r == or_arithmetic(self@.liabs_value(mango_group@, prices@)),
    {
        let ghost terms = self@.liability_terms(mango_group@, prices@);
        let mut liabs = U64F64::zero();
        let mut i: usize = 0;
        while i < NUM_TOKENS
            invariant
                i <= NUM_TOKENS,
                terms == self@.liability_terms(mango_group@, prices@),
                liabs.bits == bits_sum(terms, i as int),
                forall|j: int| 0 <= j < i ==> (#[trigger] terms[j]) is Some,
            decreases NUM_TOKENS - i,
        {
            let index = mango_group.indexes[i];
            let value = match index.borrow.checked_mul(self.borrows[i]) {
                Some(native_borrows) => native_borrows.checked_mul(prices[i]),
                None => None,
            };
            assert(terms[i as int] == value);
            let term = match value {
                Some(v) => v,
                None => { return Err(MangoError::Arithmetic); },
            };
            liabs = match liabs.checked_add(term) {
                Some(v) => v,
                None => {
                    proof {
                        lemma_bits_sum_grows(terms, i + 1, terms.len() as int);
                    }
                    return Err(MangoError::Arithmetic);
                },
            };
            i += 1;
        }
        Ok(liabs)
    }

    /// What the account owns of each asset in whole native units, deposits
    /// and resting balances together.
    pub fn get_total_assets(
        &self,
        mango_group: &MangoGroup,
        open_orders: &[OpenOrders; NUM_MARKETS],
    ) -> (r: MangoResult<[u64; NUM_TOKENS]>)
        ensures
            match self@.total_assets(mango_group@, open_orders@) {
                Some(assets) => r is Ok && r->Ok_0@ == assets,
                None => r == Err::<[u64; NUM_TOKENS], MangoError>(MangoError::Arithmetic),
            },
    {
        let mut assets = [0u64;NUM_TOKENS];
        let mut i: usize = 0;
        while i < NUM_TOKENS
            invariant
                i <= NUM_TOKENS,
                forall|j: int|
                    #![trigger assets@[j]]
                    #![trigger self@.native_deposit(mango_group@.indexes[j], j)]
                    0 <= j < i ==> self@.native_deposit(mango_group@.indexes[j], j) == Some(
                        assets@[j],
                    ),
            decreases NUM_TOKENS - i,
        {
            assets[i] = match self.get_native_deposit(&mango_group.indexes[i], i) {
                Ok(v) => v,
                Err(e) => {
                    assert(self@.asset_amount(mango_group@, open_orders@, i as int) is None);
                    return Err(MangoError::Arithmetic);
                },
            };
            i += 1;
        }
        let mut i: usize = 0;
        while i < NUM_MARKETS
            invariant
                i <= NUM_MARKETS,
                forall|j: int|
                    0 <= j < NUM_TOKENS ==> (#[trigger] self@.native_deposit(
                        mango_group@.indexes[j],
                        j,
                    )) is Some,
                forall|j: int|
                    0 <= j < i ==> self@.asset_amount(mango_group@, open_orders@, j) == Some(
                        (#[trigger] assets@[j]) as int,
                    ),
                forall|j: int|
                    i <= j < NUM_MARKETS ==> self@.native_deposit(mango_group@.indexes[j], j)
                        == Some(#[trigger] assets@[j]),
                assets@[NUM_MARKETS as int] == self@.native_deposit(
                    mango_group@.indexes[NUM_MARKETS as int],
                    NUM_MARKETS as int,
                )->0 + resting_quote(open_orders@, i as int),
            decreases NUM_MARKETS - i,
        {
            if !open_orders[i].key.is_unset() {
                assets[i] = match open_orders[i].native_coin_total.checked_add(assets[i]) {
                    Some(v) => v,
                    None => {
                        return Err(MangoError::Arithmetic);
                    },
                };
                assets[NUM_TOKENS - 1] = match open_orders[i].native_pc_total.checked_add(
                    assets[NUM_TOKENS - 1],
                ) {
                    Some(v) => v,
                    None => {
                        proof {
                            lemma_resting_quote_grows(open_orders@, i + 1, NUM_MARKETS as int);
                        }
                        return Err(MangoError::Arithmetic);
                    },
                };
            }
            i += 1;
        }
        proof {
            assert forall|j: int| 0 <= j < NUM_TOKENS implies (#[trigger] self@.asset_amount(
                mango_group@,
                open_orders@,
                j,
            )) == Some(assets@[j] as int) by {
            }
        }
        Ok(assets)
    }

    /// What the account owes of each asset in whole native units.
    pub fn get_total_liabs(&self, mango_group: &MangoGroup) -> (r: MangoResult<[u64; NUM_TOKENS]>)
        ensures
            match self@.native_liabs(mango_group@) {
                Some(liabs) => r is Ok && r->Ok_0@ == liabs,
                None => r == Err::<[u64; NUM_TOKENS], MangoError>(MangoError::Arithmetic),
            },
    {
        let mut liabs = [0u64;NUM_TOKENS];
        let mut i: usize = 0;
        while i < NUM_TOKENS
            invariant
                i <= NUM_TOKENS,
                forall|j: int|
                    #![trigger liabs@[j]]
                    #![trigger self@.native_borrow(mango_group@.indexes[j], j)]
                    0 <= j < i ==> self@.native_borrow(mango_group@.indexes[j], j) == Some(
                        liabs@[j],
                    ),
            decreases NUM_TOKENS - i,
        {
            liabs[i] = match self.get_native_borrow(&mango_group.indexes[i], i) {
                Ok(v) => v,
                Err(e) => {
                    return Err(MangoError::Arithmetic);
                },
            };
            i += 1;
        }
        Ok(liabs)
    }

    /// What is left of the account's assets once its liabilities are taken
    /// off; never negative.
    pub fn get_equity(
        &self,
        mango_group: &MangoGroup,
        prices: &[U64F64; NUM_TOKENS],
        open_orders: &[OpenOrders; NUM_MARKETS],
    ) -> (r: MangoResult<U64F64>)
        ensures
            r == or_arithmetic(self@.equity(mango_group@, prices@, open_orders@)),
    {
        let assets = self.get_assets_val(mango_group, prices, open_orders)?;
        let liabs = self.get_liabs_val(mango_group, prices)?;
        if liabs.bits > assets.bits {
            Ok(U64F64::zero())
        } else {
            Ok(U64F64 { bits: assets.bits - liabs.bits })
        }
    }

    /// The account's assets over its liabilities. An account that owes
    /// nothing has the largest ratio there is.
    pub fn get_collateral_ratio(
        &self,
        mango_group: &MangoGroup,
        prices: &[U64F64; NUM_TOKENS],
        open_orders: &[OpenOrders; NUM_MARKETS],
    ) -> (r: MangoResult<U64F64>)
        ensures
            r == or_arithmetic(self@.collateral_ratio(mango_group@, prices@, open_orders@)),
    {
        let assets = self.get_assets_val(mango_group, prices, open_orders)?;
        let liabs = self.get_liabs_val(mango_group, prices)?;
        if liabs.bits == 0 {
            Ok(U64F64::max_value())
        } else {
            match assets.checked_div(liabs) {
                Some(ratio) => Ok(ratio),
                None => Err(MangoError::Arithmetic),
            }
        }
    }

    /// The amount of quote currency to deposit to get the account to the
    /// initial collateral ratio.
    pub fn get_collateral_deficit(
        &self,
        mango_group: &MangoGroup,
        prices: &[U64F64; NUM_TOKENS],
        open_orders: &[OpenOrders; NUM_MARKETS],
    ) -> (r: MangoResult<u64>)
        ensures
            r == or_arithmetic(self@.collateral_deficit(mango_group@, prices@, open_orders@)),
    {
        let assets = self.get_assets_val(mango_group, prices, open_orders)?;
        let liabs = self.get_liabs_val(mango_group, prices)?;
        if liabs.bits == 0 {
            return Ok(0);
        }
        match liabs.checked_mul(mango_group.init_coll_ratio) {
            Some(needed) => {
                if assets.bits >= needed.bits {
                    Ok(0)
                } else {
                    Ok((U64F64 { bits: needed.bits - assets.bits }).to_num())
                }
            },
            None => Err(MangoError::Arithmetic),
        }
    }

    pub fn checked_add_borrow(&mut self, token_i: usize, v: U64F64) -> (r: MangoResult<()>)
        requires
            token_i < NUM_TOKENS,
        ensures
            match old(self)@.borrows[token_i as int].sum(v) {
                Some(s) => r is Ok && final(self)@ == (AccountState {
                    borrows: old(self)@.borrows.update(token_i as int, s),
                    ..old(self)@
                }),
                None => r == Err::<(), MangoError>(MangoError::Arithmetic) && *final(self) == *old(
                    self,
                ),
            },
    {
        match self.borrows[token_i].checked_add(v) {
            Some(s) => {
                self.borrows[token_i] = s;
                Ok(())
            },
            None => Err(MangoError::Arithmetic),
        }
    }

    pub fn checked_sub_borrow(&mut self, token_i: usize, v: U64F64) -> (r: MangoResult<()>)
        requires
            token_i < NUM_TOKENS,
        ensures
            match old(self)@.borrows[token_i as int].diff(v) {
                Some(s) => r is Ok && final(self)@ == (AccountState {
                    borrows: old(self)@.borrows.update(token_i as int, s),
                    ..old(self)@
                }),
                None => r == Err::<(), MangoError>(MangoError::Arithmetic) && *final(self) == *old(
                    self,
                ),
            },
    {
        match self.borrows[token_i].checked_sub(v) {
            Some(s) => {
                self.borrows[token_i] = s;
                Ok(())
            },
            None => Err(MangoError::Arithmetic),
        }
    }

    pub fn checked_add_deposit(&mut self, token_i: usize, v: U64F64) -> (r: MangoResult<()>)
        requires
            token_i < NUM_TOKENS,
        ensures
            match old(self)@.deposits[token_i as int].sum(v) {
                Some(s) => r is Ok && final(self)@ == (AccountState {
                    deposits: old(self)@.deposits.update(token_i as int, s),
                    ..old(self)@
                }),
                None => r == Err::<(), MangoError>(MangoError::Arithmetic) && *final(self) == *old(
                    self,
                ),
            },
    {
        match self.deposits[token_i].checked_add(v) {
            Some(s) => {
                self.deposits[token_i] = s;
                Ok(())
            },
            None => Err(MangoError::Arithmetic),
        }
    }

    pub fn checked_sub_deposit(&mut self, token_i: usize, v: U64F64) -> (r: MangoResult<()>)
        requires
            token_i < NUM_TOKENS,
        ensures
            match old(self)@.deposits[token_i as int].diff(v) {
                Some(s) => r is Ok && final(self)@ == (AccountState {
                    deposits: old(self)@.deposits.update(token_i as int, s),
                    ..old(self)@
                }),
                None => r == Err::<(), MangoError>(MangoError::Arithmetic) && *final(self) == *old(
                    self,
                ),
            },
    {
        match self.deposits[token_i].checked_sub(v) {
            Some(s) => {
                self.deposits[token_i] = s;
                Ok(())
            },
            None => Err(MangoError::Arithmetic),
        }
    }
}

} // verus!
